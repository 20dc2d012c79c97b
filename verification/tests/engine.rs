use secret_order_book::book::{status_answer, OrderBook, OrderBookError, TriggerOutcome};
use secret_order_book::handle::{handle, route, Request};
use secret_order_book::msg::HandleMsg;
use secret_order_book::gateway::{
    get_active_limit_order, get_history_limit_orders, order_book_pair_info, page_bounds,
    DEFAULT_PAGE_SIZE,
};
use secret_order_book::msg::{
    AmmPairReverseSimulationResponse, AmmPairSimulationResponse, AssetInfo, FactoryHandleMsg,
    HandleAnswer, InitMsg, IsKeyValid, IsKeyValidResponse, QueryAnswer, ResponseStatus, Snip20Msg,
    Token,
};
use secret_order_book::order::OrderStatus::{Active, Canceled, Filled, PartiallyFilled};
use secret_order_book::order::{OrderRecord, OrderStatus, PoolQuote};

fn asset(min_amount: u128, fee_amount: u128) -> AssetInfo {
    AssetInfo { decimal_places: 6, base_amount: 1_000_000, fee_amount, min_amount, token: None }
}

fn book() -> OrderBook {
    OrderBook::new("pool".to_string(), asset(10, 1), asset(20, 2))
}

fn key(is_valid: bool) -> IsKeyValidResponse {
    IsKeyValidResponse { is_key_valid: IsKeyValid { is_valid } }
}

fn quote(offer_amount: u128, return_amount: u128) -> Option<PoolQuote> {
    Some(PoolQuote { offer_amount, return_amount })
}

fn alice() -> String {
    "alice".to_string()
}

fn bob() -> String {
    "bob".to_string()
}

#[test]
fn new_book_is_empty() {
    let b = book();
    assert!(b.orders.is_empty());
    assert!(b.users.is_empty());
    assert_eq!(b.amm_pair_address, "pool");
}

#[test]
fn create_records_an_active_order() {
    let mut b = book();
    let id = b.create_limit_order(alice(), true, 250, 40, 100, 77).unwrap();
    assert_eq!(id, 0);
    let s = b.get(0).unwrap();
    assert!(s.is_bid);
    assert_eq!(s.status, OrderStatus::Active);
    assert_eq!(s.price, 250);
    assert_eq!(s.deposit_token_index, 0);
    assert_eq!(s.deposit_amount, 100);
    assert_eq!(s.expected_amount, 40);
    assert_eq!(s.fee_amount, 1);
    assert_eq!(s.balances, vec![0, 0]);
    assert_eq!(s.withdrew_balance, None);
    assert_eq!(s.timestamp, 77);
    assert_eq!(b.users[0].address, "alice");
    assert_eq!(b.users[0].orders.active_order, Some(0));
    assert!(b.users[0].orders.history_orders.is_empty());
}

#[test]
fn ask_deposits_the_second_asset() {
    let mut b = book();
    b.create_limit_order(alice(), false, 250, 40, 100, 1).unwrap();
    let s = b.get(0).unwrap();
    assert_eq!(s.deposit_token_index, 1);
    assert_eq!(s.fee_amount, 2);
    assert_eq!(b.trigger_order(0, quote(100, 45)), Ok(TriggerOutcome::Filled));
    assert_eq!(b.get(0).unwrap().balances, vec![45, 0]);
}

#[test]
fn create_below_minimum_is_refused() {
    let mut b = book();
    assert_eq!(b.create_limit_order(alice(), true, 1, 1, 9, 0), Err(OrderBookError::BelowMinimum));
    assert_eq!(b.create_limit_order(alice(), false, 1, 1, 19, 0), Err(OrderBookError::BelowMinimum));
    assert!(b.orders.is_empty());
    assert!(b.users.is_empty());
    assert_eq!(b.create_limit_order(alice(), true, 1, 1, 10, 0), Ok(0));
}

#[test]
fn create_with_amounts_too_large_is_refused() {
    let mut b = book();
    assert_eq!(
        b.create_limit_order(alice(), true, 1, u128::MAX, 10, 0),
        Err(OrderBookError::AmountTooLarge)
    );
    assert!(b.orders.is_empty());
    assert_eq!(b.create_limit_order(alice(), true, 1, u128::MAX / 10, 10, 0), Ok(0));
}

#[test]
fn second_active_order_is_refused() {
    let mut b = book();
    assert_eq!(b.create_limit_order(alice(), true, 5, 40, 100, 0), Ok(0));
    assert_eq!(
        b.create_limit_order(alice(), false, 5, 40, 100, 1),
        Err(OrderBookError::AlreadyHasActiveOrder)
    );
    assert_eq!(b.orders.len(), 1);
    assert_eq!(b.create_limit_order(bob(), false, 5, 40, 100, 1), Ok(1));
    assert_eq!(b.cancel_limit_order(&alice()), Ok(100));
    assert_eq!(b.create_limit_order(alice(), false, 5, 40, 100, 2), Ok(2));
    let open = b.orders.iter().filter(|o| o.owner == 0 && o.status != OrderStatus::Canceled).count();
    assert_eq!(open, 1);
}

#[test]
fn below_minimum_comes_before_active_order() {
    let mut b = book();
    b.create_limit_order(alice(), true, 5, 40, 100, 0).unwrap();
    assert_eq!(b.create_limit_order(alice(), true, 5, 40, 1, 0), Err(OrderBookError::BelowMinimum));
}

#[test]
fn cancel_returns_the_unfilled_deposit() {
    let mut b = book();
    b.create_limit_order(alice(), true, 5, 40, 100, 0).unwrap();
    assert_eq!(b.trigger_order(0, quote(30, 12)), Ok(TriggerOutcome::PartiallyFilled));
    assert_eq!(b.cancel_limit_order(&alice()), Ok(70));
    let s = b.get(0).unwrap();
    assert_eq!(s.status, OrderStatus::Canceled);
    assert_eq!(s.balances, vec![70, 12]);
    assert_eq!(s.withdrew_balance, Some(vec![70, 12]));
    assert_eq!(b.users[0].orders.active_order, None);
    assert_eq!(b.users[0].orders.history_orders, vec![0]);
}

#[test]
fn cancel_without_active_order_is_refused() {
    let mut b = book();
    assert_eq!(b.cancel_limit_order(&alice()), Err(OrderBookError::NoActiveOrder));
    b.create_limit_order(alice(), true, 5, 40, 100, 0).unwrap();
    assert_eq!(b.cancel_limit_order(&bob()), Err(OrderBookError::NoActiveOrder));
    assert_eq!(b.cancel_limit_order(&alice()), Ok(100));
    assert_eq!(b.cancel_limit_order(&alice()), Err(OrderBookError::NoActiveOrder));
    assert_eq!(b.users[0].orders.history_orders, vec![0]);
}

#[test]
fn get_unknown_order_is_not_found() {
    let mut b = book();
    assert_eq!(b.get(0), Err(OrderBookError::NotFound));
    b.create_limit_order(alice(), true, 5, 40, 100, 0).unwrap();
    assert!(b.get(0).is_ok());
    assert_eq!(b.get(1), Err(OrderBookError::NotFound));
    assert_eq!(b.get(u128::MAX), Err(OrderBookError::NotFound));
}

#[test]
fn trigger_with_worse_price_leaves_order_active() {
    let mut b = book();
    b.create_limit_order(alice(), true, 400, 40, 100, 0).unwrap();
    assert_eq!(b.trigger_order(0, quote(100, 39)), Ok(TriggerOutcome::Untouched));
    let s = b.get(0).unwrap();
    assert_eq!(s.status, OrderStatus::Active);
    assert_eq!(s.balances, vec![0, 0]);
    assert_eq!(b.users[0].orders.active_order, Some(0));
}

#[test]
fn trigger_at_the_limit_fills_the_order() {
    let mut b = book();
    b.create_limit_order(alice(), true, 400, 40, 100, 0).unwrap();
    assert_eq!(b.trigger_order(0, quote(100, 39)), Ok(TriggerOutcome::Untouched));
    assert_eq!(b.trigger_order(0, quote(100, 40)), Ok(TriggerOutcome::Filled));
    let s = b.get(0).unwrap();
    assert_eq!(s.status, OrderStatus::Filled);
    assert_eq!(s.balances, vec![0, 40]);
    assert_eq!(s.withdrew_balance, Some(vec![0, 40]));
    assert_eq!(b.users[0].orders.active_order, None);
    assert_eq!(b.users[0].orders.history_orders, vec![0]);
    assert_eq!(get_active_limit_order(&b, &alice(), &key(true)), Ok(None));
    let h = get_history_limit_orders(&b, &alice(), &key(true), None, None).unwrap();
    assert_eq!(h, vec![s]);
}

#[test]
fn better_price_credits_the_whole_return() {
    let mut b = book();
    b.create_limit_order(alice(), true, 400, 40, 100, 0).unwrap();
    assert_eq!(b.trigger_order(0, quote(100, 55)), Ok(TriggerOutcome::Filled));
    assert_eq!(b.get(0).unwrap().balances, vec![0, 55]);
}

#[test]
fn partial_fills_accumulate() {
    let mut b = book();
    b.create_limit_order(alice(), true, 400, 40, 100, 0).unwrap();
    assert_eq!(b.trigger_order(0, quote(25, 10)), Ok(TriggerOutcome::PartiallyFilled));
    let s = b.get(0).unwrap();
    assert_eq!(s.status, OrderStatus::PartiallyFilled);
    assert_eq!(s.balances, vec![0, 10]);
    assert_eq!(b.orders[0].consumed, 25);
    assert_eq!(b.orders[0].remaining_amount(), 75);
    assert_eq!(b.users[0].orders.active_order, Some(0));
    assert_eq!(b.trigger_order(0, quote(50, 19)), Ok(TriggerOutcome::Untouched));
    assert_eq!(b.trigger_order(0, quote(76, 40)), Ok(TriggerOutcome::Untouched));
    assert_eq!(b.trigger_order(0, quote(50, 21)), Ok(TriggerOutcome::PartiallyFilled));
    assert_eq!(b.orders[0].consumed, 75);
    assert_eq!(b.orders[0].received, 31);
    assert_eq!(b.trigger_order(0, quote(25, 10)), Ok(TriggerOutcome::Filled));
    let s = b.get(0).unwrap();
    assert_eq!(s.status, OrderStatus::Filled);
    assert_eq!(s.balances, vec![0, 41]);
    assert_eq!(b.users[0].orders.history_orders, vec![0]);
}

#[test]
fn empty_quote_does_not_fill() {
    let mut b = book();
    b.create_limit_order(alice(), true, 400, 40, 100, 0).unwrap();
    assert_eq!(b.trigger_order(0, quote(0, 0)), Ok(TriggerOutcome::Untouched));
    assert_eq!(b.trigger_order(0, quote(0, 5)), Ok(TriggerOutcome::Untouched));
    assert_eq!(b.get(0).unwrap().status, OrderStatus::Active);
}

#[test]
fn huge_return_still_crosses() {
    let mut b = book();
    b.create_limit_order(alice(), true, 400, 40, 100, 0).unwrap();
    assert_eq!(b.trigger_order(0, quote(50, u128::MAX)), Ok(TriggerOutcome::PartiallyFilled));
    assert_eq!(b.orders[0].received, u128::MAX);
    assert_eq!(b.trigger_order(0, quote(50, 20)), Ok(TriggerOutcome::Untouched));
    assert_eq!(b.trigger_order(0, quote(50, 0)), Ok(TriggerOutcome::Untouched));
    assert_eq!(b.orders[0].consumed, 50);
}

#[test]
fn trigger_without_oracle_answer_changes_nothing() {
    let mut b = book();
    b.create_limit_order(alice(), true, 400, 40, 100, 0).unwrap();
    let before = b.orders.clone();
    assert_eq!(b.trigger_order(0, None), Err(OrderBookError::OracleUnavailable));
    assert_eq!(b.trigger_order(7, quote(1, 1)), Err(OrderBookError::NotFound));
    assert_eq!(b.trigger_order(7, None), Err(OrderBookError::NotFound));
    assert_eq!(b.orders, before);
    assert_eq!(b.users[0].orders.active_order, Some(0));
}

#[test]
fn idle_trigger_is_idempotent() {
    let mut b = book();
    b.create_limit_order(alice(), true, 400, 40, 100, 0).unwrap();
    b.create_limit_order(bob(), false, 400, 40, 100, 0).unwrap();
    b.trigger_order(1, quote(10, 4)).unwrap();
    for _ in 0..2 {
        let orders = b.orders.clone();
        let maps: Vec<_> = b.users.iter().map(|u| u.orders.clone()).collect();
        assert_eq!(b.trigger_order(0, quote(100, 39)), Ok(TriggerOutcome::Untouched));
        assert_eq!(b.trigger_order(1, quote(90, 35)), Ok(TriggerOutcome::Untouched));
        assert_eq!(b.orders, orders);
        assert_eq!(b.users.iter().map(|u| u.orders.clone()).collect::<Vec<_>>(), maps);
    }
}

#[test]
fn trigger_on_empty_book_finds_nothing() {
    let b = book();
    assert_eq!(b.next_to_trigger(true, None), None);
    assert_eq!(b.next_to_trigger(false, None), None);
    assert!(!b.check_order_book_trigger(&vec![]));
    assert!(!b.check_order_book_trigger(&vec![quote(1, 1)]));
}

#[test]
fn final_status_never_changes() {
    let mut b = book();
    b.create_limit_order(alice(), true, 400, 40, 100, 0).unwrap();
    b.trigger_order(0, quote(100, 40)).unwrap();
    b.create_limit_order(alice(), true, 400, 40, 100, 0).unwrap();
    b.cancel_limit_order(&alice()).unwrap();
    let filled = b.get(0).unwrap();
    let canceled = b.get(1).unwrap();
    assert_eq!(b.trigger_order(0, quote(100, 400)), Ok(TriggerOutcome::Untouched));
    assert_eq!(b.trigger_order(1, quote(100, 400)), Ok(TriggerOutcome::Untouched));
    assert_eq!(b.trigger_order(0, quote(0, 0)), Ok(TriggerOutcome::Untouched));
    b.create_limit_order(alice(), true, 400, 40, 100, 0).unwrap();
    assert_eq!(b.cancel_limit_order(&alice()), Ok(100));
    assert_eq!(b.get(0).unwrap(), filled);
    assert_eq!(b.get(1).unwrap(), canceled);
    assert_eq!(b.users[0].orders.history_orders, vec![0, 1, 2]);
}

#[test]
fn status_transitions() {
    let all = [Active, PartiallyFilled, Filled, Canceled];
    for from in all {
        for to in all {
            let legal = match from {
                Active => true,
                PartiallyFilled => to != Active,
                Filled => to == Filled,
                Canceled => to == Canceled,
            };
            assert_eq!(from.can_transition(to), legal);
            let expected = if legal { Ok(to) } else { Err(OrderBookError::InvalidTransition) };
            assert_eq!(from.transition(to), expected);
        }
    }
    assert!(Active.open());
    assert!(PartiallyFilled.open());
    assert!(!Filled.open());
    assert!(!Canceled.open());
    assert_eq!(Active.name(), "Active");
    assert_eq!(PartiallyFilled.name(), "PartiallyFilled");
    assert_eq!(Filled.name(), "Filled");
    assert_eq!(Canceled.name(), "Canceled");
}

#[test]
fn balances_stay_within_deposit_at_par() {
    let mut b = book();
    b.create_limit_order(alice(), true, 1, 100, 100, 0).unwrap();
    b.trigger_order(0, quote(30, 30)).unwrap();
    let s = b.get(0).unwrap();
    assert_eq!(s.balances.iter().sum::<u128>(), 30);
    b.trigger_order(0, quote(60, 60)).unwrap();
    let s = b.get(0).unwrap();
    assert_eq!(s.status, OrderStatus::PartiallyFilled);
    assert!(s.balances.iter().sum::<u128>() <= s.deposit_amount);
    b.trigger_order(0, quote(10, 10)).unwrap();
    let s = b.get(0).unwrap();
    assert_eq!(s.status, OrderStatus::Filled);
    assert_eq!(s.balances, vec![0, 100]);
}

#[test]
fn order_record_steps() {
    let o = OrderRecord {
        owner: 3,
        is_bid: false,
        status: OrderStatus::Active,
        price: 9,
        deposit_amount: 200,
        expected_amount: 50,
        fee_amount: 2,
        consumed: 0,
        received: 0,
        timestamp: 5,
    };
    assert_eq!(o.remaining_amount(), 200);
    assert!(o.is_crossable(PoolQuote { offer_amount: 4, return_amount: 1 }));
    assert!(!o.is_crossable(PoolQuote { offer_amount: 5, return_amount: 1 }));
    assert!(!o.is_crossable(PoolQuote { offer_amount: 201, return_amount: 100 }));
    let p = o.fill(PoolQuote { offer_amount: 120, return_amount: 31 });
    assert_eq!(
        p,
        OrderRecord { status: OrderStatus::PartiallyFilled, consumed: 120, received: 31, ..o }
    );
    let (c, refund) = p.cancel();
    assert_eq!(refund, 80);
    assert_eq!(c, OrderRecord { status: OrderStatus::Canceled, ..p });
    assert!(!c.is_crossable(PoolQuote { offer_amount: 80, return_amount: 100 }));
    let s = c.to_state();
    assert_eq!(s.balances, vec![31, 80]);
    assert_eq!(s.deposit_token_index, 1);
    let f = p.fill(PoolQuote { offer_amount: 80, return_amount: 20 });
    assert_eq!(f, OrderRecord { status: OrderStatus::Filled, consumed: 200, received: 51, ..o });
    assert_eq!(f.to_state().balances, vec![51, 0]);
    assert_eq!(f.to_state().withdrew_balance, Some(vec![51, 0]));
    assert_eq!(p.to_state().withdrew_balance, None);
}

#[test]
fn bids_are_walked_highest_price_first() {
    let mut b = book();
    b.create_limit_order("u0".to_string(), true, 300, 40, 100, 5).unwrap();
    b.create_limit_order("u1".to_string(), true, 500, 40, 100, 9).unwrap();
    b.create_limit_order("u2".to_string(), false, 900, 40, 100, 1).unwrap();
    b.create_limit_order("u3".to_string(), true, 500, 40, 100, 2).unwrap();
    b.create_limit_order("u4".to_string(), true, 500, 40, 100, 2).unwrap();
    b.create_limit_order("u5".to_string(), true, 700, 40, 100, 2).unwrap();
    b.cancel_limit_order(&"u5".to_string()).unwrap();
    let mut walk = Vec::new();
    let mut at = None;
    while let Some(id) = b.next_to_trigger(true, at) {
        walk.push(id);
        at = Some(id);
    }
    assert_eq!(walk, vec![3, 4, 1, 0]);
    assert_eq!(b.next_to_trigger(true, Some(5)), Some(3));
    assert_eq!(b.next_to_trigger(true, Some(99)), None);
    assert_eq!(b.next_to_trigger(false, None), Some(2));
    assert_eq!(b.next_to_trigger(false, Some(2)), None);
}

#[test]
fn asks_are_walked_lowest_price_first() {
    let mut b = book();
    b.create_limit_order("u0".to_string(), false, 300, 40, 100, 5).unwrap();
    b.create_limit_order("u1".to_string(), false, 200, 40, 100, 9).unwrap();
    b.create_limit_order("u2".to_string(), false, 200, 40, 100, 3).unwrap();
    b.create_limit_order("u3".to_string(), true, 100, 40, 100, 3).unwrap();
    let mut walk = Vec::new();
    let mut at = None;
    while let Some(id) = b.next_to_trigger(false, at) {
        walk.push(id);
        at = Some(id);
        b.trigger_order(id, quote(100, 40)).unwrap();
    }
    assert_eq!(walk, vec![2, 1, 0]);
    assert_eq!(b.next_to_trigger(false, None), None);
    assert_eq!(b.next_to_trigger(true, None), Some(3));
}

#[test]
fn probe_reports_a_crossable_order() {
    let mut b = book();
    b.create_limit_order(alice(), true, 400, 40, 100, 0).unwrap();
    b.create_limit_order(bob(), false, 400, 40, 100, 0).unwrap();
    assert!(!b.check_order_book_trigger(&vec![None, None]));
    assert!(!b.check_order_book_trigger(&vec![quote(100, 39), quote(100, 39)]));
    assert!(b.check_order_book_trigger(&vec![quote(100, 39), quote(100, 40)]));
    assert!(b.check_order_book_trigger(&vec![quote(100, 40)]));
    assert!(!b.check_order_book_trigger(&vec![None, None, quote(100, 40)]));
    assert_eq!(b.get(0).unwrap().status, OrderStatus::Active);
    assert_eq!(b.get(1).unwrap().status, OrderStatus::Active);
    b.cancel_limit_order(&bob()).unwrap();
    assert!(!b.check_order_book_trigger(&vec![quote(100, 39), quote(100, 40)]));
}

#[test]
fn find_user_by_address() {
    let mut b = book();
    assert_eq!(b.find_user(&alice()), None);
    b.create_limit_order(alice(), true, 400, 40, 100, 0).unwrap();
    b.create_limit_order(bob(), true, 400, 40, 100, 0).unwrap();
    assert_eq!(b.find_user(&alice()), Some(0));
    assert_eq!(b.find_user(&bob()), Some(1));
    assert_eq!(b.find_user(&"carol".to_string()), None);
}

#[test]
fn page_bounds_values() {
    assert_eq!(page_bounds(25, 0, 10), (0, 10));
    assert_eq!(page_bounds(25, 1, 10), (10, 20));
    assert_eq!(page_bounds(25, 2, 10), (20, 25));
    assert_eq!(page_bounds(25, 3, 10), (25, 25));
    assert_eq!(page_bounds(25, u32::MAX, u32::MAX), (25, 25));
    assert_eq!(page_bounds(25, 0, u32::MAX), (0, 25));
    assert_eq!(page_bounds(25, 7, 0), (0, 0));
    assert_eq!(page_bounds(0, 0, 10), (0, 0));
    assert_eq!(DEFAULT_PAGE_SIZE, 10);
}

#[test]
fn history_is_paged_newest_first() {
    let mut b = book();
    for i in 0..25u64 {
        b.create_limit_order(alice(), true, 400, 40, 100, i).unwrap();
        b.cancel_limit_order(&alice()).unwrap();
    }
    let k = key(true);
    let p0 = get_history_limit_orders(&b, &alice(), &k, Some(10), Some(0)).unwrap();
    assert_eq!(p0.len(), 10);
    assert_eq!(p0[0].timestamp, 24);
    assert_eq!(p0[9].timestamp, 15);
    let p2 = get_history_limit_orders(&b, &alice(), &k, Some(10), Some(2)).unwrap();
    assert_eq!(p2.len(), 5);
    assert_eq!(p2[0].timestamp, 4);
    assert_eq!(p2[4].timestamp, 0);
    let p3 = get_history_limit_orders(&b, &alice(), &k, Some(10), Some(3)).unwrap();
    assert_eq!(p3.len(), 0);
    let d = get_history_limit_orders(&b, &alice(), &k, None, None).unwrap();
    assert_eq!(d, p0);
    let all = get_history_limit_orders(&b, &alice(), &k, Some(100), None).unwrap();
    assert_eq!(all.len(), 25);
    assert!(all.iter().all(|s| s.status == OrderStatus::Canceled));
    assert_eq!(get_history_limit_orders(&b, &bob(), &k, None, None), Ok(vec![]));
}

#[test]
fn active_order_is_shown_to_the_key_holder() {
    let mut b = book();
    assert_eq!(get_active_limit_order(&b, &alice(), &key(true)), Ok(None));
    b.create_limit_order(alice(), true, 400, 40, 100, 3).unwrap();
    let s = get_active_limit_order(&b, &alice(), &key(true)).unwrap().unwrap();
    assert_eq!(s, b.get(0).unwrap());
    assert_eq!(s.timestamp, 3);
    assert_eq!(get_active_limit_order(&b, &bob(), &key(true)), Ok(None));
}

#[test]
fn invalid_key_is_unauthorized() {
    let mut b = book();
    b.create_limit_order(alice(), true, 400, 40, 100, 3).unwrap();
    let k = key(false);
    assert_eq!(get_active_limit_order(&b, &alice(), &k), Err(OrderBookError::Unauthorized));
    assert_eq!(get_active_limit_order(&b, &bob(), &k), Err(OrderBookError::Unauthorized));
    assert_eq!(
        get_history_limit_orders(&b, &alice(), &k, Some(10), Some(0)),
        Err(OrderBookError::Unauthorized)
    );
    assert_eq!(
        get_history_limit_orders(&b, &bob(), &k, None, None),
        Err(OrderBookError::Unauthorized)
    );
}

#[test]
fn pair_info_shows_pool_and_assets() {
    let token = Token { contract_addr: "t1".to_string(), token_code_hash: "h1".to_string() };
    let a1 = AssetInfo { token: Some(token), ..asset(10, 1) };
    let a2 = asset(20, 2);
    let b = OrderBook::new("pool".to_string(), a1.clone(), a2.clone());
    match order_book_pair_info(&b) {
        QueryAnswer::OrderBookPair { amm_pair_address, assets_info } => {
            assert_eq!(amm_pair_address, "pool");
            assert_eq!(assets_info, [a1, a2]);
        }
        _ => panic!("not a pair answer"),
    }
}

#[test]
fn status_answers() {
    match status_answer(None) {
        HandleAnswer::Status { status, message } => {
            assert!(matches!(status, ResponseStatus::Success));
            assert_eq!(message, None);
        }
    }
    match status_answer(Some(OrderBookError::BelowMinimum)) {
        HandleAnswer::Status { status, message } => {
            assert!(matches!(status, ResponseStatus::Failure));
            assert_eq!(message, Some("deposit is below the minimum amount".to_string()));
        }
    }
    assert_eq!(OrderBookError::Unauthorized.message(), "unauthorized");
    assert_eq!(OrderBookError::OracleUnavailable.message(), "price oracle unavailable");
    assert_eq!(OrderBookError::NoActiveOrder.message(), "user has no active order");
    assert_eq!(OrderBookError::AlreadyHasActiveOrder.message(), "user already has an active order");
    assert_eq!(OrderBookError::NotFound.message(), "order not found");
    assert_eq!(OrderBookError::InvalidTransition.message(), "invalid status transition");
    assert_eq!(OrderBookError::AmountTooLarge.message(), "amounts are too large");
}

#[test]
fn token_messages() {
    assert_eq!(
        Snip20Msg::register_receive("abc".to_string()),
        Snip20Msg::RegisterReceive { code_hash: "abc".to_string(), padding: None }
    );
    assert_eq!(Snip20Msg::redeem(42), Snip20Msg::Redeem { amount: 42, padding: None });
}

#[test]
fn quotes_from_pool_answers() {
    let forward =
        AmmPairSimulationResponse { return_amount: 40, spread_amount: 3, commission_amount: 1 };
    assert_eq!(
        PoolQuote::from_simulation(100, &forward),
        PoolQuote { offer_amount: 100, return_amount: 40 }
    );
    let reverse = AmmPairReverseSimulationResponse {
        offer_amount: 95,
        spread_amount: 3,
        commission_amount: 1,
    };
    assert_eq!(
        PoolQuote::from_reverse_simulation(40, &reverse),
        PoolQuote { offer_amount: 95, return_amount: 40 }
    );
}

#[test]
fn books_built_by_the_engine_are_well_formed() {
    let mut b = book();
    assert!(b.is_well_formed());
    b.create_limit_order(alice(), true, 400, 40, 100, 0).unwrap();
    b.create_limit_order(bob(), false, 400, 40, 100, 1).unwrap();
    assert!(b.is_well_formed());
    b.trigger_order(0, quote(30, 12)).unwrap();
    assert!(b.is_well_formed());
    b.trigger_order(0, quote(70, 30)).unwrap();
    b.cancel_limit_order(&bob()).unwrap();
    b.create_limit_order(bob(), true, 400, 40, 100, 2).unwrap();
    assert!(b.is_well_formed());
}

#[test]
fn tampered_books_are_not_well_formed() {
    let mut fresh = book();
    fresh.create_limit_order(alice(), true, 400, 40, 100, 0).unwrap();
    fresh.create_limit_order(bob(), true, 400, 40, 100, 0).unwrap();
    fresh.cancel_limit_order(&bob()).unwrap();
    assert!(fresh.is_well_formed());

    let mut b = OrderBook { orders: fresh.orders.clone(), ..book() };
    assert!(!b.is_well_formed());
    b.orders.clear();
    assert!(b.is_well_formed());

    fresh.users[1].address = alice();
    assert!(!fresh.is_well_formed());
    fresh.users[1].address = bob();
    assert!(fresh.is_well_formed());

    fresh.users[0].orders.active_order = None;
    assert!(!fresh.is_well_formed());
    fresh.users[0].orders.active_order = Some(1);
    assert!(!fresh.is_well_formed());
    fresh.users[0].orders.active_order = Some(0);
    fresh.users[1].orders.active_order = Some(7);
    assert!(!fresh.is_well_formed());
    fresh.users[1].orders.active_order = None;
    assert!(fresh.is_well_formed());

    fresh.users[1].orders.history_orders.push(1);
    assert!(!fresh.is_well_formed());
    fresh.users[1].orders.history_orders = vec![0];
    assert!(!fresh.is_well_formed());
    fresh.users[1].orders.history_orders = vec![];
    assert!(!fresh.is_well_formed());
    fresh.users[1].orders.history_orders = vec![1];
    assert!(fresh.is_well_formed());

    fresh.orders[0].consumed = 101;
    assert!(!fresh.is_well_formed());
    fresh.orders[0].consumed = 50;
    assert!(!fresh.is_well_formed());
    fresh.orders[0].status = PartiallyFilled;
    assert!(!fresh.is_well_formed());
    fresh.orders[0].received = 20;
    assert!(fresh.is_well_formed());
    fresh.orders[0].status = Filled;
    assert!(!fresh.is_well_formed());
}

#[test]
fn order_record_well_formedness() {
    let o = OrderRecord {
        owner: 0,
        is_bid: true,
        status: Active,
        price: 1,
        deposit_amount: 100,
        expected_amount: 40,
        fee_amount: 0,
        consumed: 0,
        received: 0,
        timestamp: 0,
    };
    assert!(o.is_well_formed());
    assert!(!OrderRecord { received: 1, ..o }.is_well_formed());
    assert!(!OrderRecord { expected_amount: u128::MAX, ..o }.is_well_formed());
    assert!(OrderRecord { status: Canceled, ..o }.is_well_formed());
    assert!(!OrderRecord { status: Filled, ..o }.is_well_formed());
    assert!(OrderRecord { status: Filled, consumed: 100, received: 40, ..o }.is_well_formed());
    assert!(!OrderRecord { status: Filled, consumed: 100, received: 39, ..o }.is_well_formed());
    assert!(OrderRecord { status: Filled, consumed: 100, received: u128::MAX, ..o }
        .is_well_formed());
}

#[test]
fn update_replaces_a_resting_order() {
    let mut b = book();
    b.create_limit_order(alice(), true, 400, 40, 100, 0).unwrap();
    let o = b.orders[0];
    let half = OrderRecord { status: PartiallyFilled, consumed: 50, received: 20, ..o };
    assert_eq!(b.update(0, half), Ok(()));
    assert_eq!(b.orders[0], half);
    assert_eq!(b.users[0].orders.active_order, Some(0));
    assert_eq!(b.update(0, o), Err(OrderBookError::InvalidTransition));
    assert_eq!(b.update(1, half), Err(OrderBookError::NotFound));
    assert_eq!(
        b.update(0, OrderRecord { consumed: 101, ..half }),
        Err(OrderBookError::InvalidTransition)
    );
    assert_eq!(b.update(0, OrderRecord { owner: 1, ..half }), Err(OrderBookError::InvalidTransition));
    assert_eq!(b.orders[0], half);
    let full = OrderRecord { status: Filled, consumed: 100, received: 40, ..o };
    assert_eq!(b.update(0, full), Ok(()));
    assert_eq!(b.orders[0], full);
    assert_eq!(b.users[0].orders.active_order, None);
    assert_eq!(b.users[0].orders.history_orders, vec![0]);
    assert_eq!(b.update(0, full), Err(OrderBookError::InvalidTransition));
    assert_eq!(
        b.update(0, OrderRecord { status: Canceled, ..full }),
        Err(OrderBookError::InvalidTransition)
    );
    assert_eq!(b.users[0].orders.history_orders, vec![0]);
    assert!(b.is_well_formed());
}

#[test]
fn pass_steps_walk_one_side() {
    let mut b = book();
    b.create_limit_order("u0".to_string(), true, 300, 40, 100, 5).unwrap();
    b.create_limit_order("u1".to_string(), true, 500, 50, 200, 9).unwrap();
    b.create_limit_order("u2".to_string(), false, 900, 40, 100, 1).unwrap();
    b.trigger_order(1, quote(80, 20)).unwrap();
    assert_eq!(b.next_question(true, None), Some((1, 120)));
    assert_eq!(
        b.pass_step(true, 1, quote(120, 30)),
        Ok((TriggerOutcome::Filled, Some((0, 100))))
    );
    assert_eq!(b.pass_step(true, 0, quote(100, 39)), Ok((TriggerOutcome::Untouched, None)));
    assert_eq!(b.pass_step(true, 0, None), Err(OrderBookError::OracleUnavailable));
    assert_eq!(b.pass_step(true, 9, quote(1, 1)), Err(OrderBookError::NotFound));
    assert_eq!(b.next_question(false, None), Some((2, 100)));
    assert_eq!(b.pass_step(false, 2, quote(10, 4)), Ok((TriggerOutcome::PartiallyFilled, None)));
    assert_eq!(b.next_question(false, None), Some((2, 90)));
    assert_eq!(b.next_question(true, None), Some((0, 100)));
    assert!(b.is_well_formed());
}

#[test]
fn init_sets_up_an_empty_book_and_the_callback() {
    let token = Token { contract_addr: "t1".to_string(), token_code_hash: "h1".to_string() };
    let a1 = AssetInfo { token: Some(token), ..asset(10, 1) };
    let a2 = asset(20, 2);
    let msg = InitMsg {
        factory_address: "factory".to_string(),
        factory_hash: "fh".to_string(),
        factory_key: "key".to_string(),
        token1_info: a1.clone(),
        token2_info: a2.clone(),
        amm_pair_contract_address: "pool".to_string(),
        amm_pair_contract_hash: "ph".to_string(),
    };
    let (b, callback) = OrderBook::init(msg, "book".to_string());
    assert!(b.orders.is_empty());
    assert!(b.users.is_empty());
    assert!(b.is_well_formed());
    assert_eq!(b.amm_pair_address, "pool");
    assert_eq!(b.asset1, a1);
    assert_eq!(b.asset2, a2);
    assert_eq!(a1.duplicate(), a1);
    assert_eq!(
        callback,
        FactoryHandleMsg::InitCallBackFromSecretOrderBookToFactory {
            auth_key: "key".to_string(),
            contract_address: "book".to_string(),
            amm_pair_address: "pool".to_string(),
            token1_info: a1,
            token2_info: a2,
        }
    );
}

fn is_success(answer: &Option<HandleAnswer>) -> bool {
    matches!(
        answer,
        Some(HandleAnswer::Status { status: ResponseStatus::Success, message: None })
    )
}

fn failure_message(answer: Option<HandleAnswer>) -> String {
    match answer {
        Some(HandleAnswer::Status { status: ResponseStatus::Failure, message: Some(m) }) => m,
        other => panic!("not a failure: {:?}", other),
    }
}

fn order_msg() -> HandleMsg {
    HandleMsg::CreateLimitOrder { is_bid: true, price: 400, expected_amount: 40 }
}

fn receive_msg(msg: Option<Vec<u8>>) -> HandleMsg {
    HandleMsg::Receive { sender: "token".to_string(), from: alice(), amount: 100, msg }
}

#[test]
fn messages_are_routed() {
    match route(bob(), 7, receive_msg(Some(vec![1])), Some(order_msg())) {
        Request::Create { owner, is_bid, price, expected_amount, deposit_amount } => {
            assert_eq!(owner, "alice");
            assert!(is_bid);
            assert_eq!(price, 400);
            assert_eq!(expected_amount, 40);
            assert_eq!(deposit_amount, 100);
        }
        _ => panic!("not a create request"),
    }
    match route(bob(), 7, order_msg(), None) {
        Request::Create { owner, deposit_amount, .. } => {
            assert_eq!(owner, "bob");
            assert_eq!(deposit_amount, 7);
        }
        _ => panic!("not a create request"),
    }
    assert!(matches!(route(bob(), 0, receive_msg(None), None), Request::Idle));
    assert!(matches!(route(bob(), 0, receive_msg(None), Some(order_msg())), Request::Idle));
    assert!(matches!(route(bob(), 0, receive_msg(Some(vec![1])), None), Request::Malformed));
    assert!(matches!(
        route(bob(), 0, receive_msg(Some(vec![1])), Some(HandleMsg::CancelLimitOrder {})),
        Request::Malformed
    ));
    match route(bob(), 0, HandleMsg::CancelLimitOrder {}, None) {
        Request::Cancel { owner } => assert_eq!(owner, "bob"),
        _ => panic!("not a cancel request"),
    }
    assert!(matches!(route(bob(), 0, HandleMsg::TriggerLimitOrders {}, None), Request::Trigger));
}

#[test]
fn requests_are_answered() {
    let mut b = book();
    let create = || route(bob(), 0, receive_msg(Some(vec![1])), Some(order_msg()));
    assert!(is_success(&handle(&mut b, create(), 5)));
    assert_eq!(b.get(0).unwrap().timestamp, 5);
    assert_eq!(b.get(0).unwrap().deposit_amount, 100);
    assert_eq!(b.users[0].address, "alice");
    assert_eq!(failure_message(handle(&mut b, create(), 6)), "user already has an active order");
    assert_eq!(b.orders.len(), 1);
    assert_eq!(
        failure_message(handle(&mut b, route(bob(), 5, order_msg(), None), 6)),
        "deposit is below the minimum amount"
    );
    assert_eq!(
        failure_message(handle(&mut b, Request::Cancel { owner: bob() }, 6)),
        "user has no active order"
    );
    assert_eq!(failure_message(handle(&mut b, Request::Malformed, 6)), "malformed message");
    assert!(is_success(&handle(&mut b, Request::Idle, 6)));
    assert!(handle(&mut b, Request::Trigger, 6).is_none());
    assert_eq!(b.get(0).unwrap().status, Active);
    assert!(is_success(&handle(&mut b, Request::Cancel { owner: alice() }, 7)));
    assert_eq!(b.get(0).unwrap().status, Canceled);
    assert_eq!(OrderBookError::MalformedMessage.message(), "malformed message");
}
