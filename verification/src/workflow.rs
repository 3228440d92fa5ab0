//! The order commit workflow.
//!
//! Placing an order alternates work on the outside (the store, the cache,
//! the notification queue) with decisions. The decisions are here, as a
//! state machine: `begin` names the first action, and `advance` takes the
//! state and the event that reports how the last action went and gives the
//! next state and the next action. Whoever drives the machine performs each
//! action and reports back, until the action is `Finish`.
//!
//! From `LockStock` to `Commit` the actions form one unit of work in the
//! store: `LockStock` opens it, `Commit` closes it, and `Rollback` undoes
//! all of it.

use crate::cache::{plan_after_read, plan_of, CachePlan, CacheRead, CAMPAIGNS_TTL_SECONDS};
use crate::controllers::orders::{
    cart_details, get_order_by_id, price_order, priced_order, shows, OrderDetails, OrderWithFields,
    ProductWithCategory,
};
use crate::error::OrderError;
use crate::insertables::NewOrder;
use crate::inventory::{
    distinct_products, lemma_reserve_each, none_negative, occurrences, reserve_cart, reserve_each,
    StockLevel,
};
use crate::models::{Campaign, Order};
use crate::notifier::{event_of, may_retry, order_created, QueryOrder, MAX_NOTIFY_ATTEMPTS};
use vstd::prelude::*;

verus! {

/// A stored order as the caller receives it, with a notice for operators when
/// its creation could not be announced.
#[derive(Debug, Clone, PartialEq, Eq)]
pub struct PlacedOrder {
    pub order: OrderDetails,
    pub notice: Option<OrderError>,
}

/// Where an order placement stands. Each state but the last names what the
/// machine is waiting for.
#[derive(Debug, PartialEq, Eq)]
pub enum CommitState {
    FindingUser { user_id: i32, product_ids: Vec<i32> },
    LockingStock { user_id: i32, product_ids: Vec<i32> },
    StoringStock { user_id: i32, product_ids: Vec<i32> },
    LoadingCart { user_id: i32, product_ids: Vec<i32> },
    ReadingCache { user_id: i32, product_ids: Vec<i32>, cart: Vec<ProductWithCategory> },
    LoadingCampaigns { user_id: i32, product_ids: Vec<i32>, cart: Vec<ProductWithCategory> },
    WritingCache { product_ids: Vec<i32>, cart: Vec<ProductWithCategory>, new_order: NewOrder },
    InsertingOrder { product_ids: Vec<i32>, cart: Vec<ProductWithCategory> },
    InsertingLines { cart: Vec<ProductWithCategory>, order: Order },
    LoadingOrder { cart: Vec<ProductWithCategory>, order: Order },
    Committing { placed: OrderDetails, created: QueryOrder },
    Notifying { placed: OrderDetails, created: QueryOrder, attempts: u32 },
    RollingBack { error: OrderError },
    Done { outcome: Result<PlacedOrder, OrderError> },
}

/// How the last action went.
#[derive(Debug, Clone, PartialEq, Eq)]
pub enum CommitEvent {
    UserFound,
    UserMissing,
    /// The stock levels of the requested products, locked for this unit of work.
    StockLocked(Vec<StockLevel>),
    StockStored,
    CartLoaded(Vec<ProductWithCategory>),
    CacheAnswered(CacheRead),
    CampaignsLoaded(Vec<Campaign>),
    /// The cache write was tried; whether it succeeded does not matter.
    CacheWritten,
    OrderInserted(Order),
    LinesInserted,
    OrderLoaded(OrderWithFields),
    Committed,
    RolledBack,
    Notified,
    NotifyFailed,
    /// The store failed to do what the last action asked.
    StoreFailed,
}

/// What to do next on the outside.
#[derive(Debug, Clone, PartialEq, Eq)]
pub enum CommitAction {
    FindUser { user_id: i32 },
    /// Open the unit of work; read and lock the stock of these products.
    LockStock { product_ids: Vec<i32> },
    StoreStock { levels: Vec<StockLevel> },
    /// Load these products with the titles of their categories.
    LoadCart { product_ids: Vec<i32> },
    ReadCache,
    /// Load the campaigns from the store. `recovering` names the error of
    /// the cache that made this necessary, if there was one.
    LoadCampaigns { recovering: Option<OrderError> },
    WriteCache { campaigns: Vec<Campaign>, ttl_seconds: u64 },
    InsertOrder { order: NewOrder },
    /// Insert one order line for each of these products.
    InsertLines { order_id: i32, product_ids: Vec<i32> },
    /// Load the order joined with its user and campaign.
    LoadOrder { order_id: i32 },
    Commit,
    Rollback,
    Notify { event: QueryOrder },
    /// Nothing is left to do: the state holds the outcome.
    Finish,
}

/// The state is inside the store's unit of work.
pub open spec fn in_transaction(state: CommitState) -> bool {
    match state {
        CommitState::FindingUser { .. } => false,
        CommitState::Notifying { .. } => false,
        CommitState::RollingBack { .. } => false,
        CommitState::Done { .. } => false,
        _ => true,
    }
}

/// The order is stored for good.
pub open spec fn committed(state: CommitState) -> bool {
    match state {
        CommitState::Notifying { .. } => true,
        CommitState::Done { outcome: Ok(_) } => true,
        _ => false,
    }
}

/// The state and action that follow the pricing of a cart: the order is
/// inserted, after the campaigns were cached if they came from the store; a
/// cart whose totals cannot be stored ends the unit of work.
pub open spec fn follows_pricing(
    user_id: i32,
    product_ids: Vec<i32>,
    cart: Vec<ProductWithCategory>,
    campaigns: Vec<Campaign>,
    from_store: bool,
    after: CommitState,
    action: CommitAction,
) -> bool {
    match priced_order(campaigns@, cart@, user_id) {
        Some(new_order) => if from_store {
            &&& after == CommitState::WritingCache { product_ids, cart, new_order }
            &&& action == CommitAction::WriteCache { campaigns, ttl_seconds: CAMPAIGNS_TTL_SECONDS }
        } else {
            &&& after == CommitState::InsertingOrder { product_ids, cart }
            &&& action == CommitAction::InsertOrder { order: new_order }
        },
        None => {
            &&& after == CommitState::RollingBack { error: OrderError::AmountOutOfRange }
            &&& action == CommitAction::Rollback
        },
    }
}

/// The transition relation: `after` and `action` are what follows when
/// `event` arrives in state `before`.
pub open spec fn follows(
    before: CommitState,
    event: CommitEvent,
    after: CommitState,
    action: CommitAction,
) -> bool {
    match (before, event) {
        (CommitState::FindingUser { user_id, product_ids }, CommitEvent::UserFound) => {
            &&& after == CommitState::LockingStock { user_id, product_ids }
            &&& action matches CommitAction::LockStock { product_ids: ids }
            &&& ids@ == product_ids@
        },
        (CommitState::FindingUser { .. }, CommitEvent::UserMissing) => {
            &&& after == CommitState::Done { outcome: Err(OrderError::NotFound) }
            &&& action == CommitAction::Finish
        },
        (CommitState::FindingUser { .. }, _) => {
            &&& after == CommitState::Done { outcome: Err(OrderError::PersistenceFailure) }
            &&& action == CommitAction::Finish
        },
        (CommitState::LockingStock { user_id, product_ids }, CommitEvent::StockLocked(stocks)) => {
            match reserve_each(stocks@, product_ids@) {
                Ok(reserved) => {
                    &&& after == CommitState::StoringStock { user_id, product_ids }
                    &&& action matches CommitAction::StoreStock { levels }
                    &&& levels@ == reserved
                },
                Err(error) => {
                    &&& after == CommitState::RollingBack { error }
                    &&& action == CommitAction::Rollback
                },
            }
        },
        (CommitState::StoringStock { user_id, product_ids }, CommitEvent::StockStored) => {
            &&& after == CommitState::LoadingCart { user_id, product_ids }
            &&& action matches CommitAction::LoadCart { product_ids: ids }
            &&& ids@ == product_ids@
        },
        (CommitState::LoadingCart { user_id, product_ids }, CommitEvent::CartLoaded(cart)) => {
            &&& after == CommitState::ReadingCache { user_id, product_ids, cart }
            &&& action == CommitAction::ReadCache
        },
        (
            CommitState::ReadingCache { user_id, product_ids, cart },
            CommitEvent::CacheAnswered(read),
        ) => {
            match plan_of(read) {
                CachePlan::Use(campaigns) => follows_pricing(
                    user_id,
                    product_ids,
                    cart,
                    campaigns,
                    false,
                    after,
                    action,
                ),
                CachePlan::Reload { recovering } => {
                    &&& after == CommitState::LoadingCampaigns { user_id, product_ids, cart }
                    &&& action == CommitAction::LoadCampaigns { recovering }
                },
            }
        },
        (
            CommitState::LoadingCampaigns { user_id, product_ids, cart },
            CommitEvent::CampaignsLoaded(campaigns),
        ) => follows_pricing(user_id, product_ids, cart, campaigns, true, after, action),
        (
            CommitState::WritingCache { product_ids, cart, new_order },
            CommitEvent::CacheWritten,
        ) => {
            &&& after == CommitState::InsertingOrder { product_ids, cart }
            &&& action == CommitAction::InsertOrder { order: new_order }
        },
        (CommitState::InsertingOrder { product_ids, cart }, CommitEvent::OrderInserted(order)) => {
            &&& after == CommitState::InsertingLines { cart, order }
            &&& action == CommitAction::InsertLines { order_id: order.id, product_ids }
        },
        (CommitState::InsertingLines { cart, order }, CommitEvent::LinesInserted) => {
            &&& after == CommitState::LoadingOrder { cart, order }
            &&& action == CommitAction::LoadOrder { order_id: order.id }
        },
        (CommitState::LoadingOrder { cart, order }, CommitEvent::OrderLoaded(fields)) => {
            &&& after matches CommitState::Committing { placed, created }
            &&& shows(placed, fields, cart_details(cart@))
            &&& created == event_of(order)
            &&& action == CommitAction::Commit
        },
        (CommitState::Committing { placed, created }, CommitEvent::Committed) => {
            &&& after == CommitState::Notifying { placed, created, attempts: 1 }
            &&& action == CommitAction::Notify { event: created }
        },
        (CommitState::Notifying { placed, created, attempts }, CommitEvent::Notified) => {
            &&& after == CommitState::Done {
                outcome: Ok(PlacedOrder { order: placed, notice: None }),
            }
            &&& action == CommitAction::Finish
        },
        (CommitState::Notifying { placed, created, attempts }, _) => {
            if attempts < MAX_NOTIFY_ATTEMPTS {
                &&& after == CommitState::Notifying {
                    placed,
                    created,
                    attempts: (attempts + 1) as u32,
                }
                &&& action == CommitAction::Notify { event: created }
            } else {
                &&& after == CommitState::Done {
                    outcome: Ok(
                        PlacedOrder {
                            order: placed,
                            notice: Some(OrderError::NotificationFailure),
                        },
                    ),
                }
                &&& action == CommitAction::Finish
            }
        },
        (CommitState::RollingBack { error }, _) => {
            &&& after == CommitState::Done { outcome: Err(error) }
            &&& action == CommitAction::Finish
        },
        (CommitState::Done { outcome }, _) => {
            &&& after == CommitState::Done { outcome }
            &&& action == CommitAction::Finish
        },
        (_, _) => {
            &&& after == CommitState::RollingBack { error: OrderError::PersistenceFailure }
            &&& action == CommitAction::Rollback
        },
    }
}

/// An upper bound on the number of steps left before the machine is done.
pub open spec fn steps_left(state: CommitState) -> nat {
    match state {
        CommitState::FindingUser { .. } => 17,
        CommitState::LockingStock { .. } => 16,
        CommitState::StoringStock { .. } => 15,
        CommitState::LoadingCart { .. } => 14,
        CommitState::ReadingCache { .. } => 13,
        CommitState::LoadingCampaigns { .. } => 12,
        CommitState::WritingCache { .. } => 11,
        CommitState::InsertingOrder { .. } => 10,
        CommitState::InsertingLines { .. } => 9,
        CommitState::LoadingOrder { .. } => 8,
        CommitState::Committing { .. } => 7,
        CommitState::Notifying { attempts, .. } => if attempts <= MAX_NOTIFY_ATTEMPTS {
            (2 + MAX_NOTIFY_ATTEMPTS - attempts) as nat
        } else {
            2
        },
        CommitState::RollingBack { .. } => 1,
        CommitState::Done { .. } => 0,
    }
}

fn copy_ids(product_ids: &Vec<i32>) -> (ids: Vec<i32>)
    ensures
        ids@ == product_ids@,
{
    let mut ids: Vec<i32> = Vec::new();
    let mut i: usize = 0;
    while i < product_ids.len()
        invariant
            i <= product_ids.len(),
            ids@ == product_ids@.take(i as int),
        decreases product_ids.len() - i,
    {
        ids.push(product_ids[i]);
        proof {
            assert(product_ids@.take(i + 1) =~= product_ids@.take(i as int).push(
                product_ids@[i as int],
            ));
        }
        i = i + 1;
    }
    proof {
        assert(product_ids@.take(product_ids.len() as int) =~= product_ids@);
    }
    ids
}

fn fail(error: OrderError) -> (next: (CommitState, CommitAction))
    ensures
        next.0 == (CommitState::Done { outcome: Err(error) }),
        next.1 == CommitAction::Finish,
{
    (CommitState::Done { outcome: Err(error) }, CommitAction::Finish)
}

fn roll_back(error: OrderError) -> (next: (CommitState, CommitAction))
    ensures
        next.0 == (CommitState::RollingBack { error }),
        next.1 == CommitAction::Rollback,
{
    (CommitState::RollingBack { error }, CommitAction::Rollback)
}

fn after_pricing(
    user_id: i32,
    product_ids: Vec<i32>,
    cart: Vec<ProductWithCategory>,
    campaigns: Vec<Campaign>,
    from_store: bool,
) -> (next: (CommitState, CommitAction))
    ensures
        follows_pricing(user_id, product_ids, cart, campaigns, from_store, next.0, next.1),
{
    let mut cart = cart;
    match price_order(&campaigns, &mut cart, user_id) {
        Some(new_order) => {
            if from_store {
                (
                    CommitState::WritingCache { product_ids, cart, new_order },
                    CommitAction::WriteCache { campaigns, ttl_seconds: CAMPAIGNS_TTL_SECONDS },
                )
            } else {
                (
                    CommitState::InsertingOrder { product_ids, cart },
                    CommitAction::InsertOrder { order: new_order },
                )
            }
        },
        None => roll_back(OrderError::AmountOutOfRange),
    }
}

/// Starts placing an order for a user: the user is looked up first.
pub fn begin(user_id: i32, product_ids: Vec<i32>) -> (first: (CommitState, CommitAction))
    ensures
        first.0 == (CommitState::FindingUser { user_id, product_ids }),
        first.1 == (CommitAction::FindUser { user_id }),
{
    (CommitState::FindingUser { user_id, product_ids }, CommitAction::FindUser { user_id })
}

/// Takes the event that reports on the last action and gives the next state
/// and the next action.
pub fn advance(state: CommitState, event: CommitEvent) -> (next: (CommitState, CommitAction))
    ensures
        follows(state, event, next.0, next.1),
{
    match state {
        CommitState::FindingUser { user_id, product_ids } => match event {
            CommitEvent::UserFound => {
                let ids = copy_ids(&product_ids);
                (
                    CommitState::LockingStock { user_id, product_ids },
                    CommitAction::LockStock { product_ids: ids },
                )
            },
            CommitEvent::UserMissing => fail(OrderError::NotFound),
            _ => fail(OrderError::PersistenceFailure),
        },
        CommitState::LockingStock { user_id, product_ids } => match event {
            CommitEvent::StockLocked(stocks) => match reserve_cart(&stocks, &product_ids) {
                Ok(levels) => (
                    CommitState::StoringStock { user_id, product_ids },
                    CommitAction::StoreStock { levels },
                ),
                Err(error) => roll_back(error),
            },
            _ => roll_back(OrderError::PersistenceFailure),
        },
        CommitState::StoringStock { user_id, product_ids } => match event {
            CommitEvent::StockStored => {
                let ids = copy_ids(&product_ids);
                (
                    CommitState::LoadingCart { user_id, product_ids },
                    CommitAction::LoadCart { product_ids: ids },
                )
            },
            _ => roll_back(OrderError::PersistenceFailure),
        },
        CommitState::LoadingCart { user_id, product_ids } => match event {
            CommitEvent::CartLoaded(cart) => (
                CommitState::ReadingCache { user_id, product_ids, cart },
                CommitAction::ReadCache,
            ),
            _ => roll_back(OrderError::PersistenceFailure),
        },
        CommitState::ReadingCache { user_id, product_ids, cart } => match event {
            CommitEvent::CacheAnswered(read) => match plan_after_read(read) {
                CachePlan::Use(campaigns) => after_pricing(
                    user_id,
                    product_ids,
                    cart,
                    campaigns,
                    false,
                ),
                CachePlan::Reload { recovering } => (
                    CommitState::LoadingCampaigns { user_id, product_ids, cart },
                    CommitAction::LoadCampaigns { recovering },
                ),
            },
            _ => roll_back(OrderError::PersistenceFailure),
        },
        CommitState::LoadingCampaigns { user_id, product_ids, cart } => match event {
            CommitEvent::CampaignsLoaded(campaigns) => after_pricing(
                user_id,
                product_ids,
                cart,
                campaigns,
                true,
            ),
            _ => roll_back(OrderError::PersistenceFailure),
        },
        CommitState::WritingCache { product_ids, cart, new_order } => match event {
            CommitEvent::CacheWritten => (
                CommitState::InsertingOrder { product_ids, cart },
                CommitAction::InsertOrder { order: new_order },
            ),
            _ => roll_back(OrderError::PersistenceFailure),
        },
        CommitState::InsertingOrder { product_ids, cart } => match event {
            CommitEvent::OrderInserted(order) => {
                let order_id: i32 = order.id;
                (
                    CommitState::InsertingLines { cart, order },
                    CommitAction::InsertLines { order_id, product_ids },
                )
            },
            _ => roll_back(OrderError::PersistenceFailure),
        },
        CommitState::InsertingLines { cart, order } => match event {
            CommitEvent::LinesInserted => {
                let order_id: i32 = order.id;
                (CommitState::LoadingOrder { cart, order }, CommitAction::LoadOrder { order_id })
            },
            _ => roll_back(OrderError::PersistenceFailure),
        },
        CommitState::LoadingOrder { cart, order } => match event {
            CommitEvent::OrderLoaded(fields) => {
                let placed = get_order_by_id(fields, &cart);
                let created = order_created(&order);
                (CommitState::Committing { placed, created }, CommitAction::Commit)
            },
            _ => roll_back(OrderError::PersistenceFailure),
        },
        CommitState::Committing { placed, created } => match event {
            CommitEvent::Committed => (
                CommitState::Notifying { placed, created, attempts: 1 },
                CommitAction::Notify { event: created },
            ),
            _ => roll_back(OrderError::PersistenceFailure),
        },
        CommitState::Notifying { placed, created, attempts } => match event {
            CommitEvent::Notified => (
                CommitState::Done { outcome: Ok(PlacedOrder { order: placed, notice: None }) },
                CommitAction::Finish,
            ),
            _ => {
                if may_retry(attempts) {
                    (
                        CommitState::Notifying { placed, created, attempts: attempts + 1 },
                        CommitAction::Notify { event: created },
                    )
                } else {
                    (
                        CommitState::Done {
                            outcome: Ok(
                                PlacedOrder {
                                    order: placed,
                                    notice: Some(OrderError::NotificationFailure),
                                },
                            ),
                        },
                        CommitAction::Finish,
                    )
                }
            },
        },
        CommitState::RollingBack { error } => fail(error),
        CommitState::Done { outcome } => (CommitState::Done { outcome }, CommitAction::Finish),
    }
}

/// Gives the outcome once the machine is done, and nothing before.
pub fn outcome(state: CommitState) -> (result: Option<Result<PlacedOrder, OrderError>>)
    ensures
        result == match state {
            CommitState::Done { outcome } => Some(outcome),
            _ => None,
        },
{
    match state {
        CommitState::Done { outcome } => Some(outcome),
        _ => None,
    }
}

/// The error is one that a caller can receive. A cache entry that does not
/// decode and a notification that cannot be sent never fail an order.
pub open spec fn reportable(error: OrderError) -> bool {
    error != OrderError::CacheCorrupt && error != OrderError::NotificationFailure
}

/// Whatever error the state carries is one that a caller can receive.
pub open spec fn carries_reportable(state: CommitState) -> bool {
    match state {
        CommitState::RollingBack { error } => reportable(error),
        CommitState::Done { outcome: Err(error) } => reportable(error),
        _ => true,
    }
}

proof fn lemma_reserve_each_errors(stocks: Seq<StockLevel>, product_ids: Seq<i32>)
    ensures
        reserve_each(stocks, product_ids) matches Err(error) ==> error == OrderError::NotFound
            || error == OrderError::InsufficientStock,
    decreases product_ids.len(),
{
    if product_ids.len() > 0 {
        lemma_reserve_each_errors(stocks, product_ids.drop_last());
    }
}

/// Every step brings the machine closer to its end: a machine that is done
/// stays as it is, and any other step lowers the bound on the steps left. So
/// a placement ends after at most seventeen events, whatever they are, and a
/// notification is sent at most `MAX_NOTIFY_ATTEMPTS` times.
pub proof fn lemma_steps_decrease(
    before: CommitState,
    event: CommitEvent,
    after: CommitState,
    action: CommitAction,
)
    requires
        follows(before, event, after, action),
    ensures
        steps_left(before) <= 17,
        before is Done ==> after == before && action == CommitAction::Finish,
        !(before is Done) ==> steps_left(after) < steps_left(before),
        (action == CommitAction::Finish) <==> after is Done,
        after matches CommitState::Notifying { attempts, .. } ==> 1 <= attempts
            <= MAX_NOTIFY_ATTEMPTS,
{
}

/// Once the order is stored for good it stays so: no event leads to a
/// rollback or to a failed outcome, and all that is left is to announce the
/// order and to finish.
pub proof fn lemma_committed_stays_committed(
    before: CommitState,
    event: CommitEvent,
    after: CommitState,
    action: CommitAction,
)
    requires
        follows(before, event, after, action),
        committed(before),
    ensures
        committed(after),
        action is Notify || action is Finish,
        before matches CommitState::Notifying { placed: shown, .. } ==> (
        after matches CommitState::Done { outcome: Ok(done) } ==> done.order == shown && (
        done.notice is None || done.notice == Some(OrderError::NotificationFailure))),
{
}

/// Nothing is undone outside the unit of work, and inside it every failure
/// undoes all of it: a rollback is asked for exactly when the machine starts
/// rolling back, which happens only inside the unit of work; and while the
/// user is being looked up, before anything was changed, the machine either
/// opens the unit of work or fails at once.
pub proof fn lemma_rollback_discipline(
    before: CommitState,
    event: CommitEvent,
    after: CommitState,
    action: CommitAction,
)
    requires
        follows(before, event, after, action),
    ensures
        (action == CommitAction::Rollback) <==> after is RollingBack,
        after is RollingBack ==> in_transaction(before),
        in_transaction(before) ==> in_transaction(after) || after is RollingBack || (before
            is Committing && after is Notifying),
        before is FindingUser ==> (action is LockStock && after is LockingStock) || (action
            == CommitAction::Finish && after matches CommitState::Done { outcome: Err(_) }),
        action == CommitAction::Commit ==> before is LoadingOrder && after is Committing,
        before is RollingBack ==> (after matches CommitState::Done { outcome: Err(error) }
            && before == (CommitState::RollingBack { error })),
{
}

/// A placement never fails with an error that is not meant for the caller.
pub proof fn lemma_errors_reportable(
    before: CommitState,
    event: CommitEvent,
    after: CommitState,
    action: CommitAction,
)
    requires
        follows(before, event, after, action),
        carries_reportable(before),
    ensures
        carries_reportable(after),
{
    match (before, event) {
        (CommitState::LockingStock { user_id, product_ids }, CommitEvent::StockLocked(stocks)) => {
            lemma_reserve_each_errors(stocks@, product_ids@);
        },
        _ => {},
    }
}

/// The stock that the machine asks to store is never negative: for locked
/// levels of distinct products, none of them negative, each stored level is
/// the locked level less the number of times its product was requested.
pub proof fn lemma_stored_stock_not_negative(
    before: CommitState,
    event: CommitEvent,
    after: CommitState,
    action: CommitAction,
)
    requires
        follows(before, event, after, action),
        before is LockingStock,
        event matches CommitEvent::StockLocked(stocks) && distinct_products(stocks@)
            && none_negative(stocks@),
    ensures
        action matches CommitAction::StoreStock { levels } ==> {
            &&& none_negative(levels@)
            &&& levels@.len() == event->StockLocked_0@.len()
            &&& forall|j: int|
                0 <= j < levels@.len() ==> (#[trigger] levels@[j]).product_id
                    == event->StockLocked_0@[j].product_id && levels@[j].quantity
                    == event->StockLocked_0@[j].quantity - occurrences(
                    before->LockingStock_product_ids@,
                    levels@[j].product_id,
                )
        },
{
    lemma_reserve_each(event->StockLocked_0@, before->LockingStock_product_ids@);
}

/// A run of the machine: the state and action that `begin` gives, followed
/// by the state and action that `advance` gives for each event in turn.
pub open spec fn is_run(trail: Seq<(CommitState, CommitAction)>, events: Seq<CommitEvent>) -> bool {
    &&& trail.len() == events.len() + 1
    &&& trail[0].0 matches CommitState::FindingUser { user_id, .. }
    &&& trail[0].1 == CommitAction::FindUser { user_id }
    &&& forall|i: int|
        #![trigger events[i]]
        0 <= i < events.len() ==> follows(trail[i].0, events[i], trail[i + 1].0, trail[i + 1].1)
}

/// How often a unit of work is opened among the first `count` actions of the run.
pub open spec fn units_opened(trail: Seq<(CommitState, CommitAction)>, count: nat) -> nat
    decreases count,
{
    if count == 0 {
        0
    } else if trail[count - 1].1 is LockStock {
        units_opened(trail, (count - 1) as nat) + 1
    } else {
        units_opened(trail, (count - 1) as nat)
    }
}

/// How often a rollback is asked for among the first `count` actions of the run.
pub open spec fn rollbacks_asked(trail: Seq<(CommitState, CommitAction)>, count: nat) -> nat
    decreases count,
{
    if count == 0 {
        0
    } else if trail[count - 1].1 == CommitAction::Rollback {
        rollbacks_asked(trail, (count - 1) as nat) + 1
    } else {
        rollbacks_asked(trail, (count - 1) as nat)
    }
}

/// How often, among the first `count` events of the run, the store reports
/// that it committed when a commit was asked for.
pub open spec fn commits_confirmed(
    trail: Seq<(CommitState, CommitAction)>,
    events: Seq<CommitEvent>,
    count: nat,
) -> nat
    decreases count,
{
    if count == 0 {
        0
    } else if trail[count - 1].1 == CommitAction::Commit && events[count - 1]
        == CommitEvent::Committed {
        commits_confirmed(trail, events, (count - 1) as nat) + 1
    } else {
        commits_confirmed(trail, events, (count - 1) as nat)
    }
}

/// An order is placed as a whole or not at all. After any number of events
/// of any run: the unit of work has been opened at most once; before it is
/// opened and while it is open nothing was committed or rolled back; once
/// the order is stored for good, and so in every run that ends in success,
/// the store has committed exactly once and nothing was rolled back; and in
/// every run that ends in failure the store has never committed, and what
/// was opened has been rolled back. No run fails with an error that is not
/// meant for the caller, and every run is done after seventeen events.
pub proof fn lemma_all_or_nothing(
    trail: Seq<(CommitState, CommitAction)>,
    events: Seq<CommitEvent>,
    n: nat,
)
    requires
        is_run(trail, events),
        n <= events.len(),
    ensures
        ({
            let state = trail[n as int].0;
            let opened = units_opened(trail, n + 1);
            let rolled_back = rollbacks_asked(trail, n + 1);
            let confirmed = commits_confirmed(trail, events, n);
            &&& opened <= 1
            &&& state is FindingUser ==> opened == 0 && rolled_back == 0 && confirmed == 0
            &&& in_transaction(state) ==> opened == 1 && rolled_back == 0 && confirmed == 0
            &&& committed(state) ==> opened == 1 && rolled_back == 0 && confirmed == 1
            &&& state is RollingBack ==> opened == 1 && rolled_back == 1 && confirmed == 0
            &&& state matches CommitState::Done { outcome: Err(_) } ==> confirmed == 0
                && rolled_back == opened
            &&& !(state is Done) ==> steps_left(state) + n <= 17
            &&& carries_reportable(state)
            &&& trail[n as int].1 == CommitAction::Commit <==> state is Committing
        }),
    decreases n,
{
    if n > 0 {
        let before = n - 1;
        lemma_all_or_nothing(trail, events, before as nat);
        assert(follows(trail[before].0, events[before], trail[before + 1].0, trail[before + 1].1));
        lemma_errors_reportable(
            trail[before].0,
            events[before],
            trail[before + 1].0,
            trail[before + 1].1,
        );
    } else {
        reveal_with_fuel(units_opened, 2);
        reveal_with_fuel(rollbacks_asked, 2);
    }
}

/// No run is longer than seventeen events: by then the machine is done.
pub proof fn lemma_run_ends(trail: Seq<(CommitState, CommitAction)>, events: Seq<CommitEvent>)
    requires
        is_run(trail, events),
        events.len() >= 17,
    ensures
        trail[17].0 is Done,
        trail[17].1 == CommitAction::Finish,
{
    lemma_all_or_nothing(trail, events, 17);
    assert(follows(trail[16].0, events[16], trail[17].0, trail[17].1));
}

} // verus!
