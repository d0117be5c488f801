//! The answers of the daemon's query operations, as plain values.

use crate::event::Event;
use crate::event::EventView;
use vstd::prelude::*;

verus! {

/// The number of coins held in one tier.
#[derive(Clone, Copy, Debug, PartialEq, Eq, Structural)]
pub struct CoinsByTier {
    tier: u64,
    quantity: usize,
}

impl CoinsByTier {
    /// The value of one coin of the tier, in millisatoshi.
    pub closed spec fn spec_tier(&self) -> u64 {
        self.tier
    }

    /// The number of coins in the tier.
    pub closed spec fn spec_quantity(&self) -> usize {
        self.quantity
    }

    /// `quantity` coins of the tier whose coins are worth `tier` millisatoshi
    /// each.
    pub fn new(tier: u64, quantity: usize) -> (coins: CoinsByTier)
        ensures
            coins.spec_tier() == tier,
            coins.spec_quantity() == quantity,
    {
        CoinsByTier { tier, quantity }
    }

    /// The value of one coin of the tier, in millisatoshi.
    #[verifier::when_used_as_spec(spec_tier)]
    pub fn tier(&self) -> (tier: u64)
        ensures
            tier == self.spec_tier(),
    {
        self.tier
    }

    /// The number of coins in the tier.
    #[verifier::when_used_as_spec(spec_quantity)]
    pub fn quantity(&self) -> (quantity: usize)
        ensures
            quantity == self.spec_quantity(),
    {
        self.quantity
    }
}

/// What the wallet knows of one issuance that is not final yet: how many
/// coins it will yield and what they are worth together, in millisatoshi.
#[derive(Clone, Copy, Debug, PartialEq, Eq, Structural)]
pub struct CoinFinalization {
    pub coin_count: usize,
    pub coin_amount: u64,
}

/// The coins that the issuances of `pending` will yield, all together.
pub open spec fn total_count(pending: Seq<CoinFinalization>) -> nat
    decreases pending.len(),
{
    if pending.len() == 0 {
        0
    } else {
        total_count(pending.drop_last()) + pending.last().coin_count as nat
    }
}

/// What the issuances of `pending` are worth, all together, in millisatoshi.
pub open spec fn total_amount(pending: Seq<CoinFinalization>) -> nat
    decreases pending.len(),
{
    if pending.len() == 0 {
        0
    } else {
        total_amount(pending.drop_last()) + pending.last().coin_amount as nat
    }
}

/// Both totals of `pending` can be held: the coins in a `usize`, their worth
/// in a `u64`.
pub open spec fn totals_fit(pending: Seq<CoinFinalization>) -> bool {
    total_count(pending) <= usize::MAX && total_amount(pending) <= u64::MAX
}

/// The totals only grow along a list of issuances.
pub proof fn lemma_totals_grow(pending: Seq<CoinFinalization>, n: int)
    requires
        0 <= n <= pending.len(),
    ensures
        total_count(pending.take(n)) <= total_count(pending),
        total_amount(pending.take(n)) <= total_amount(pending),
    decreases pending.len(),
{
    if n == pending.len() {
        assert(pending.take(n) =~= pending);
    } else {
        assert(pending.drop_last().take(n) =~= pending.take(n));
        lemma_totals_grow(pending.drop_last(), n);
    }
}

/// The issuances that are not final yet, summed up.
#[derive(Clone, Copy, Debug, PartialEq, Eq, Structural)]
pub struct PendingResponse {
    transactions: usize,
    acc_qty_coins: usize,
    acc_val_amount: u64,
}

impl PendingResponse {
    /// The number of issuances.
    pub closed spec fn spec_transactions(&self) -> usize {
        self.transactions
    }

    /// The coins that the issuances will yield.
    pub closed spec fn spec_acc_qty_coins(&self) -> usize {
        self.acc_qty_coins
    }

    /// What the issuances are worth, in millisatoshi.
    pub closed spec fn spec_acc_val_amount(&self) -> u64 {
        self.acc_val_amount
    }

    /// Whether both totals of `all_pending` can be held, which
    /// [`PendingResponse::new`] asks for.
    pub fn fits(all_pending: &Vec<CoinFinalization>) -> (fit: bool)
        ensures
            fit == totals_fit(all_pending@),
    {
        let mut count: usize = 0;
        let mut amount: u64 = 0;
        let mut next: usize = 0;
        assert(all_pending@.take(0) =~= Seq::<CoinFinalization>::empty());
        while next < all_pending.len()
            invariant
                next <= all_pending@.len(),
                count == total_count(all_pending@.take(next as int)),
                amount == total_amount(all_pending@.take(next as int)),
            decreases all_pending@.len() - next,
        {
            let item = all_pending[next];
            proof {
                assert(all_pending@.take(next + 1).drop_last() =~= all_pending@.take(next as int));
                lemma_totals_grow(all_pending@, next + 1);
            }
            match (count.checked_add(item.coin_count), amount.checked_add(item.coin_amount)) {
                (Some(more_coins), Some(more_worth)) => {
                    count = more_coins;
                    amount = more_worth;
                },
                _ => {
                    return false;
                },
            }
            next += 1;
        }
        assert(all_pending@.take(next as int) =~= all_pending@);
        true
    }

    /// Sums up `all_pending`: how many issuances there are, how many coins
    /// they will yield and what these are worth.
    pub fn new(all_pending: Vec<CoinFinalization>) -> (response: PendingResponse)
        requires
            totals_fit(all_pending@),
        ensures
            response.spec_transactions() == all_pending@.len(),
            response.spec_acc_qty_coins() == total_count(all_pending@),
            response.spec_acc_val_amount() == total_amount(all_pending@),
    {
        let mut count: usize = 0;
        let mut amount: u64 = 0;
        let mut next: usize = 0;
        assert(all_pending@.take(0) =~= Seq::<CoinFinalization>::empty());
        while next < all_pending.len()
            invariant
                next <= all_pending@.len(),
                totals_fit(all_pending@),
                count == total_count(all_pending@.take(next as int)),
                amount == total_amount(all_pending@.take(next as int)),
            decreases all_pending@.len() - next,
        {
            let item = all_pending[next];
            proof {
                assert(all_pending@.take(next + 1).drop_last() =~= all_pending@.take(next as int));
                lemma_totals_grow(all_pending@, next + 1);
            }
            count = count + item.coin_count;
            amount = amount + item.coin_amount;
            next += 1;
        }
        assert(all_pending@.take(next as int) =~= all_pending@);
        PendingResponse {
            transactions: all_pending.len(),
            acc_qty_coins: count,
            acc_val_amount: amount,
        }
    }

    /// The number of issuances.
    #[verifier::when_used_as_spec(spec_transactions)]
    pub fn transactions(&self) -> (transactions: usize)
        ensures
            transactions == self.spec_transactions(),
    {
        self.transactions
    }

    /// The coins that the issuances will yield.
    #[verifier::when_used_as_spec(spec_acc_qty_coins)]
    pub fn acc_qty_coins(&self) -> (coins: usize)
        ensures
            coins == self.spec_acc_qty_coins(),
    {
        self.acc_qty_coins
    }

    /// What the issuances are worth, in millisatoshi.
    #[verifier::when_used_as_spec(spec_acc_val_amount)]
    pub fn acc_val_amount(&self) -> (amount: u64)
        ensures
            amount == self.spec_acc_val_amount(),
    {
        self.acc_val_amount
    }
}

/// The wallet's holdings: the coins it has, tier by tier, and the issuances
/// that are not final yet.
#[derive(Clone, Debug)]
pub struct InfoResponse {
    coins: Vec<CoinsByTier>,
    pending: PendingResponse,
}

impl InfoResponse {
    /// The coins held, tier by tier.
    pub closed spec fn spec_coins(&self) -> Seq<CoinsByTier> {
        self.coins@
    }

    /// The issuances that are not final yet, summed up.
    pub closed spec fn spec_pending(&self) -> PendingResponse {
        self.pending
    }

    /// The holdings `coins`, given tier by tier as the worth of one coin in
    /// millisatoshi and the number of coins, together with the sums of `cfd`.
    pub fn new(coins: Vec<(u64, usize)>, cfd: Vec<CoinFinalization>) -> (response: InfoResponse)
        requires
            totals_fit(cfd@),
        ensures
            response.spec_coins().len() == coins@.len(),
            forall|i: int|
                0 <= i < coins@.len() ==> response.spec_coins()[i].spec_tier() == coins@[i].0
                    && response.spec_coins()[i].spec_quantity() == coins@[i].1,
            response.spec_pending().spec_transactions() == cfd@.len(),
            response.spec_pending().spec_acc_qty_coins() == total_count(cfd@),
            response.spec_pending().spec_acc_val_amount() == total_amount(cfd@),
    {
        let mut info_coins: Vec<CoinsByTier> = Vec::new();
        let mut next: usize = 0;
        while next < coins.len()
            invariant
                next <= coins@.len(),
                info_coins@.len() == next,
                forall|i: int|
                    0 <= i < next ==> info_coins@[i].spec_tier() == coins@[i].0
                        && info_coins@[i].spec_quantity() == coins@[i].1,
            decreases coins@.len() - next,
        {
            let (tier, quantity) = coins[next];
            info_coins.push(CoinsByTier::new(tier, quantity));
            next += 1;
        }
        InfoResponse { coins: info_coins, pending: PendingResponse::new(cfd) }
    }

    /// The coins held, tier by tier.
    pub fn coins(&self) -> (coins: &Vec<CoinsByTier>)
        ensures
            coins@ == self.spec_coins(),
    {
        &self.coins
    }

    /// The issuances that are not final yet, summed up.
    pub fn pending(&self) -> (pending: PendingResponse)
        ensures
            pending == self.spec_pending(),
    {
        self.pending
    }
}

/// The events that a query of the log found.
#[derive(Clone, Debug)]
pub struct EventsResponse {
    events: Vec<Event>,
}

impl View for EventsResponse {
    type V = Seq<EventView>;

    closed spec fn view(&self) -> Seq<EventView> {
        self.events.deep_view()
    }
}

impl EventsResponse {
    /// The answer that carries `events`, in their order.
    pub fn new(events: Vec<Event>) -> (response: EventsResponse)
        ensures
            response@ == events.deep_view(),
    {
        EventsResponse { events }
    }

    /// The events of the answer.
    pub fn events(&self) -> (events: &Vec<Event>)
        ensures
            events.deep_view() == self@,
    {
        &self.events
    }
}

} // verus!
