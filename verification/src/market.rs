//! Buying, auctions, tensors and archiving.
use vstd::prelude::*;
use vstd::string::*;
use crate::auction::{fresh_auction, moved_on, won_and_moved_on};
use crate::catalog::{family_tile_of, family_of_tile, family_tile, is_model_tile, model, parameters_of_tile, price_of, tensor_cost_of, ModelFamily};
use crate::decimal::{append_decimal, decimal};
use crate::state::{alive_ids, owned_in_family, AuctionState, Game, GameError, GameLog, ModelState, Phase, Player};

verus! {

/// The refusal `InvalidAction` with exactly this message.
pub open spec fn invalid_action(r: Result<(), GameError>, message: Seq<char>) -> bool {
    r matches Err(GameError::InvalidAction(m)) && m@ == message
}

/// Lowest tensor count among the first `k` models of `family` the player owns.
pub open spec fn lowest_tensors(models: Map<usize, ModelState>, player: int, family: ModelFamily, k: int) -> Option<int>
    decreases k,
{
    if k <= 0 {
        None
    } else {
        let prev = lowest_tensors(models, player, family, k - 1);
        let st = models[family_tile(family, k - 1) as usize];
        if st.owner == Some(player as usize) {
            match prev {
                None => Some(st.tensors as int),
                Some(m) => Some(if (st.tensors as int) < m { st.tensors as int } else { m }),
            }
        } else {
            prev
        }
    }
}

/// Highest tensor count among the first `k` models of `family` the player owns.
pub open spec fn highest_tensors(models: Map<usize, ModelState>, player: int, family: ModelFamily, k: int) -> Option<int>
    decreases k,
{
    if k <= 0 {
        None
    } else {
        let prev = highest_tensors(models, player, family, k - 1);
        let st = models[family_tile(family, k - 1) as usize];
        if st.owner == Some(player as usize) {
            match prev {
                None => Some(st.tensors as int),
                Some(m) => Some(if (st.tensors as int) > m { st.tensors as int } else { m }),
            }
        } else {
            prev
        }
    }
}

/// Whether the player owns an archived model among the first `k` of `family`.
pub open spec fn archived_among(models: Map<usize, ModelState>, player: int, family: ModelFamily, k: int) -> bool
    decreases k,
{
    k > 0 && (archived_among(models, player, family, k - 1) || {
        let st = models[family_tile(family, k - 1) as usize];
        st.owner == Some(player as usize) && st.archived
    })
}

/// A model the player owns is one of the four of its family that the scans
/// of that family look at.
proof fn lemma_scanned(models: Map<usize, ModelState>, player: int, tile: usize)
    requires
        is_model_tile(tile as int),
        models[tile].owner == Some(player as usize),
    ensures
        models[tile].archived ==> archived_among(models, player, family_of_tile(tile as int), 4),
        models[tile].tensors > 0 ==> tensored_among(models, player, family_of_tile(tile as int), 4),
{
    let f = family_of_tile(tile as int);
    let r = tile % 6;
    let k: int = if r == 1 { 0 } else if r == 2 { 1 } else if r == 4 { 2 } else { 3 };
    assert(family_tile(f, k) == tile as int);
    reveal_with_fuel(archived_among, 5);
    reveal_with_fuel(tensored_among, 5);
}

/// Raising the lowest model of a family whose tensor counts differ by at most
/// one makes it the highest.
pub proof fn lemma_raised_lowest_is_highest(models: Map<usize, ModelState>, player: int, tile: usize)
    requires
        is_model_tile(tile as int),
        models[tile].owner == Some(player as usize),
        models[tile].tensors < 4,
        models[tile].tensors == family_low(models, player, family_of_tile(tile as int)),
        family_high(models, player, family_of_tile(tile as int)) <= family_low(
            models,
            player,
            family_of_tile(tile as int),
        ) + 1,
    ensures
        family_high(
            models.insert(tile, ModelState { tensors: (models[tile].tensors + 1) as u8, ..models[tile] }),
            player,
            family_of_tile(tile as int),
        ) == models[tile].tensors + 1,
{
    let f = family_of_tile(tile as int);
    let t = models[tile].tensors as int;
    let updated = models.insert(tile, ModelState { tensors: (models[tile].tensors + 1) as u8, ..models[tile] });
    let r = tile % 6;
    let kt: int = if r == 1 { 0 } else if r == 2 { 1 } else if r == 4 { 2 } else { 3 };
    assert(family_tile(f, kt) == tile as int);
    lemma_highest_bounds(models, player, f, 4);
    lemma_highest_bounds(updated, player, f, 4);
    lemma_lowest_owned(models, player, f, 4);
    assert(highest_tensors(models, player, f, 4) is Some);
    assert forall|j: int| 0 <= j < 4 && (#[trigger] updated[family_tile(f, j) as usize]).owner == Some(
        player as usize,
    ) implies updated[family_tile(f, j) as usize].tensors <= t + 1 by {
        if family_tile(f, j) as usize != tile {
            assert(models[family_tile(f, j) as usize].tensors <= family_high(models, player, f));
        }
    }
    assert(updated[family_tile(f, kt) as usize].tensors == t + 1);
}

/// The highest count is at least every owned count among the first `k`, and
/// is one of them.
proof fn lemma_highest_bounds(models: Map<usize, ModelState>, player: int, family: ModelFamily, k: int)
    requires
        0 <= k <= 4,
    ensures
        match highest_tensors(models, player, family, k) {
            Some(x) => {
                &&& forall|j: int| 0 <= j < k && (#[trigger] models[family_tile(family, j) as usize]).owner == Some(
                    player as usize,
                ) ==> models[family_tile(family, j) as usize].tensors <= x
                &&& exists|j: int| 0 <= j < k && (#[trigger] models[family_tile(family, j) as usize]).owner == Some(
                    player as usize,
                ) && models[family_tile(family, j) as usize].tensors == x
            },
            None => forall|j: int| 0 <= j < k ==> (#[trigger] models[family_tile(family, j) as usize]).owner
                != Some(player as usize),
        },
    decreases k,
{
    if k > 0 {
        lemma_highest_bounds(models, player, family, k - 1);
        let st = models[family_tile(family, k - 1) as usize];
        match highest_tensors(models, player, family, k - 1) {
            Some(x) => {
                let w = choose|j: int| 0 <= j < k - 1 && (#[trigger] models[family_tile(family, j) as usize]).owner
                    == Some(player as usize) && models[family_tile(family, j) as usize].tensors == x;
                assert(models[family_tile(family, w) as usize].tensors == x);
            },
            None => {},
        }
    }
}

/// The lowest count is at most every owned count among the first `k`.
proof fn lemma_lowest_owned(models: Map<usize, ModelState>, player: int, family: ModelFamily, k: int)
    requires
        0 <= k <= 4,
    ensures
        match lowest_tensors(models, player, family, k) {
            Some(x) => forall|j: int| 0 <= j < k && (#[trigger] models[family_tile(family, j) as usize]).owner
                == Some(player as usize) ==> x <= models[family_tile(family, j) as usize].tensors,
            None => forall|j: int| 0 <= j < k ==> (#[trigger] models[family_tile(family, j) as usize]).owner
                != Some(player as usize),
        },
    decreases k,
{
    if k > 0 {
        lemma_lowest_owned(models, player, family, k - 1);
    }
}

/// Whether the player owns a model with tensors among the first `k` of `family`.
pub open spec fn tensored_among(models: Map<usize, ModelState>, player: int, family: ModelFamily, k: int) -> bool
    decreases k,
{
    k > 0 && (tensored_among(models, player, family, k - 1) || {
        let st = models[family_tile(family, k - 1) as usize];
        st.owner == Some(player as usize) && st.tensors > 0
    })
}

/// The lowest tensor count in the player's part of a family, 0 if they own none.
pub open spec fn family_low(models: Map<usize, ModelState>, player: int, family: ModelFamily) -> int {
    match lowest_tensors(models, player, family, 4) {
        Some(m) => m,
        None => 0,
    }
}

/// The highest tensor count in the player's part of a family, 0 if they own none.
pub open spec fn family_high(models: Map<usize, ModelState>, player: int, family: ModelFamily) -> int {
    match highest_tensors(models, player, family, 4) {
        Some(m) => m,
        None => 0,
    }
}

/// Summary of a player's holdings in one family.
pub struct FamilyScan {
    pub low: u8,
    pub high: u8,
    pub any_archived: bool,
    pub any_tensors: bool,
}

impl Game {
    /// Scans the player's models of a family.
    pub fn scan_family(&self, player: usize, family: ModelFamily) -> (scan: FamilyScan)
        requires
            self.wf(),
        ensures
            scan.low == family_low(self.models@, player as int, family),
            scan.high == family_high(self.models@, player as int, family),
            scan.any_archived == archived_among(self.models@, player as int, family, 4),
            scan.any_tensors == tensored_among(self.models@, player as int, family, 4),
    {
        let mut low: Option<u8> = None;
        let mut high: Option<u8> = None;
        let mut any_archived = false;
        let mut any_tensors = false;
        let mut k: usize = 0;
        while k < 4
            invariant
                self.wf(),
                k <= 4,
                match low {
                    Some(m) => lowest_tensors(self.models@, player as int, family, k as int) == Some(m as int),
                    None => lowest_tensors(self.models@, player as int, family, k as int) is None,
                },
                match high {
                    Some(m) => highest_tensors(self.models@, player as int, family, k as int) == Some(m as int),
                    None => highest_tensors(self.models@, player as int, family, k as int) is None,
                },
                any_archived == archived_among(self.models@, player as int, family, k as int),
                any_tensors == tensored_among(self.models@, player as int, family, k as int),
            decreases 4 - k,
        {
            let tile = family_tile_of(family, k);
            let state = self.read_model(tile);
            let owned = match state.owner {
                Some(o) => o == player,
                None => false,
            };
            if owned {
                low = match low {
                    None => Some(state.tensors),
                    Some(m) => Some(if state.tensors < m { state.tensors } else { m }),
                };
                high = match high {
                    None => Some(state.tensors),
                    Some(m) => Some(if state.tensors > m { state.tensors } else { m }),
                };
                if state.archived {
                    any_archived = true;
                }
                if state.tensors > 0 {
                    any_tensors = true;
                }
            }
            k = k + 1;
        }
        FamilyScan {
            low: match low {
                Some(m) => m,
                None => 0,
            },
            high: match high {
                Some(m) => m,
                None => 0,
            },
            any_archived,
            any_tensors,
        }
    }
}

} // verus!

verus! {

/// The game `a` with other players, models and log.
pub open spec fn with_books(a: Game, b: Game) -> Game {
    Game { players: b.players, models: b.models, logs: b.logs, ..a }
}

/// What `Buy` does.
pub open spec fn buy_outcome(a: Game, b: Game, r: Result<(), GameError>) -> bool {
    let p = a.current_player;
    match a.phase {
        Phase::OfferPurchase { tile } => {
            let price = price_of(parameters_of_tile(tile as int));
            let player = a.players@[p as int];
            if a.credits_of(p as int) < price {
                r == Err::<(), GameError>(GameError::InsufficientFunds) && b == a
            } else {
                &&& r is Ok
                &&& b.players@ == a.players@.update(p as int, Player { credits: (player.credits - price) as i32, ..player })
                &&& b.models@ == a.models@.insert(tile, ModelState { owner: Some(p), ..a.models@[tile] })
                &&& b.logs@ == a.logs@.push(GameLog::Bought { player: p, tile, price: price as i32 })
                &&& b == Game { phase: Phase::Manage, ..with_books(a, b) }
            }
        },
        _ => r == Err::<(), GameError>(GameError::InvalidPhase) && b == a,
    }
}

/// What `Decline` does: the offered model goes to auction.
pub open spec fn decline_outcome(a: Game, b: Game, r: Result<(), GameError>) -> bool {
    match a.phase {
        Phase::OfferPurchase { tile } => {
            &&& r is Ok
            &&& b.models@ == a.models@
            &&& b == (Game {
                models: b.models,
                auction: b.auction,
                phase: b.phase,
                pending_bank_auctions: b.pending_bank_auctions,
                ..a
            })
            &&& if alive_ids(a.players@).len() > 0 {
                &&& b.auction matches Some(auction) && fresh_auction(auction, tile, a)
                &&& b.phase == Phase::Auction
                &&& b.pending_bank_auctions == a.pending_bank_auctions
            } else {
                &&& b.auction is None
                &&& b.pending_bank_auctions@.len() == 0
                &&& b.phase == Phase::Manage
            }
        },
        _ => r == Err::<(), GameError>(GameError::InvalidPhase) && b == a,
    }
}

impl Game {
    /// Buys the model on offer at its price.
    pub fn buy(&mut self) -> (result: Result<(), GameError>)
        requires
            old(self).wf(),
        ensures
            final(self).wf(),
            buy_outcome(*old(self), *final(self), result),
    {
        let tile = match self.phase {
            Phase::OfferPurchase { tile } => tile,
            _ => return Err(GameError::InvalidPhase),
        };
        let price = match model(tile) {
            Some(definition) => definition.price(),
            None => return Err(GameError::UnknownModel),
        };
        let player = self.current_player;
        if self.players[player].credits < price {
            return Err(GameError::InsufficientFunds);
        }
        proof { crate::catalog::lemma_price_range(parameters_of_tile(tile as int)); }
        self.players[player].credits = self.players[player].credits - price;
        let state = self.read_model(tile);
        assert(self.models@.contains_key(tile));
        self.write_model(tile, ModelState { owner: Some(player), ..state });
        self.logs.push(GameLog::Bought { player, tile, price });
        self.phase = Phase::Manage;
        Ok(())
    }

    /// Turns down the model on offer, which starts an auction for it.
    pub fn decline(&mut self) -> (result: Result<(), GameError>)
        requires
            old(self).wf(),
        ensures
            final(self).wf(),
            decline_outcome(*old(self), *final(self), result),
            result is Ok ==> final(self).no_bids(),
            result is Ok ==> crate::state::same_turn(*old(self), *final(self)),
            result is Ok ==> final(self).winners == old(self).winners,
    {
        let tile = match self.phase {
            Phase::OfferPurchase { tile } => tile,
            _ => return Err(GameError::InvalidPhase),
        };
        self.start_auction(tile);
        Ok(())
    }
}

} // verus!

verus! {

/// Where the turn to bid goes after the bidder at `index` bid: to the next
/// player, skipping the high bidder.
pub open spec fn index_after_bid(active: Seq<usize>, index: int) -> int {
    let len = active.len() as int;
    let bidder = active[index];
    let next = (index + 1) % len;
    if len > 1 && active[next] == bidder {
        (next + 1) % len
    } else {
        next
    }
}

/// `b` is auction `a` after its current bidder bid `amount`.
pub open spec fn bid_entered(a: AuctionState, b: AuctionState, amount: i32) -> bool {
    &&& b.tile == a.tile
    &&& b.active@ == a.active@
    &&& b.bidder_index == index_after_bid(a.active@, a.bidder_index as int)
    &&& b.high_bid == amount
    &&& b.high_bidder == Some(a.active@[a.bidder_index as int])
}

/// Where the turn to bid goes after the bidder at `index` passed and left
/// `remaining`.
pub open spec fn index_after_pass(remaining: Seq<usize>, index: int, high: Option<usize>) -> int {
    if remaining.len() == 0 {
        index
    } else {
        let next = index % (remaining.len() as int);
        if remaining.len() > 1 && high == Some(remaining[next]) {
            (next + 1) % (remaining.len() as int)
        } else {
            next
        }
    }
}

/// `b` is auction `a` after its current bidder passed.
pub open spec fn pass_entered(a: AuctionState, b: AuctionState) -> bool {
    let remaining = a.active@.remove(a.bidder_index as int);
    &&& b.tile == a.tile
    &&& b.active@ == remaining
    &&& b.bidder_index == index_after_pass(remaining, a.bidder_index as int, a.high_bidder)
    &&& b.high_bid == a.high_bid
    &&& b.high_bidder == a.high_bidder
}

/// The smallest bid the auction accepts next.
pub open spec fn minimum_bid(a: AuctionState) -> int {
    if a.high_bid == 0 {
        10
    } else {
        a.high_bid + 10
    }
}

/// What `AuctionBid(amount)` does.
pub open spec fn bid_outcome(a: Game, b: Game, amount: i32, r: Result<(), GameError>) -> bool {
    if a.phase != Phase::Auction {
        r == Err::<(), GameError>(GameError::InvalidPhase) && b == a
    } else {
        match a.auction {
            None => r == Err::<(), GameError>(GameError::InvalidPhase) && b == a,
            Some(x) => if x.bidder_index >= x.active@.len() {
                r == Err::<(), GameError>(GameError::InvalidPhase) && b == a
            } else {
                let bidder = x.active@[x.bidder_index as int];
                if amount < minimum_bid(x) || amount > a.credits_of(bidder as int) {
                    &&& invalid_action(
                        r,
                        "bid must be at least "@ + decimal(minimum_bid(x)) + " and affordable"@,
                    )
                    &&& b == a
                } else if x.active@.len() == 1 {
                    r is Ok && won_and_moved_on(a, b, bidder, x.tile, amount as int)
                } else {
                    &&& r is Ok
                    &&& b.auction matches Some(y) && bid_entered(x, y, amount)
                    &&& b == Game { auction: b.auction, ..a }
                }
            },
        }
    }
}

/// What `AuctionPass` does.
pub open spec fn pass_outcome(a: Game, b: Game, r: Result<(), GameError>) -> bool {
    if a.phase != Phase::Auction {
        r == Err::<(), GameError>(GameError::InvalidPhase) && b == a
    } else {
        match a.auction {
            None => r == Err::<(), GameError>(GameError::InvalidPhase) && b == a,
            Some(x) => if x.active@.len() == 0 {
                r == Err::<(), GameError>(GameError::InvalidPhase) && b == a
            } else {
                let remaining = x.active@.remove(x.bidder_index as int);
                let over = remaining.len() == 0 || (remaining.len() == 1 && x.high_bidder == Some(remaining[0]));
                &&& r is Ok
                &&& if !over {
                    &&& b.auction matches Some(y) && pass_entered(x, y)
                    &&& b == Game { auction: b.auction, ..a }
                } else {
                    match x.high_bidder {
                        Some(w) => won_and_moved_on(a, b, w, x.tile, x.high_bid as int),
                        None => b.players == a.players && b.models@ == a.models@ && b.logs == a.logs && moved_on(a, b),
                    }
                }
            },
        }
    }
}

proof fn lemma_next_index(i: int, len: int)
    requires
        0 <= i < len,
    ensures
        0 <= (i + 1) % len < len,
        len > 1 ==> (i + 1) % len != i,
{
    if i + 1 < len {
        vstd::arithmetic::div_mod::lemma_small_mod((i + 1) as nat, len as nat);
    } else {
        vstd::arithmetic::div_mod::lemma_mod_self_0(len);
    }
}

impl Game {
    /// The bidder whose turn it is bids `amount`.
    pub fn auction_bid(&mut self, amount: i32) -> (result: Result<(), GameError>)
        requires
            old(self).wf(),
            old(self).credits_at_most(i32::MAX - 10),
        ensures
            final(self).wf(),
            bid_outcome(*old(self), *final(self), amount, result),
    {
        if self.phase != Phase::Auction {
            return Err(GameError::InvalidPhase);
        }
        let (bidder, minimum) = match &self.auction {
            None => return Err(GameError::InvalidPhase),
            Some(a) => match a.current_bidder() {
                None => return Err(GameError::InvalidPhase),
                Some(b) => (b, if a.high_bid == 0 { 10 } else { a.high_bid + 10 }),
            },
        };
        if amount < minimum || amount > self.players[bidder].credits {
            let mut message = String::from_str("bid must be at least ");
            append_decimal(&mut message, minimum as i64);
            message.append(" and affordable");
            return Err(GameError::InvalidAction(message));
        }
        let mut a = self.auction.take().unwrap();
        let ghost x = a;
        assert(old(self).auction_wf(x));
        a.high_bid = amount;
        a.high_bidder = Some(bidder);
        let len = a.active.len();
        proof { lemma_next_index(x.bidder_index as int, len as int); }
        a.bidder_index = (a.bidder_index + 1) % len;
        proof {
            if len > 1 {
                let i = x.bidder_index as int;
                let j = a.bidder_index as int;
                if j < i {
                    assert(x.active@[j] < x.active@[i]);
                } else {
                    assert(x.active@[i] < x.active@[j]);
                }
            }
        }
        if len > 1 && a.active[a.bidder_index] == bidder {
            a.bidder_index = (a.bidder_index + 1) % len;
        }
        proof {
            assert(a.active@ == x.active@);

        }
        self.auction = Some(a);
        assert(self.auction_wf(a));
        self.normalize_auction();
        Ok(())
    }

    /// The bidder whose turn it is drops out of the auction.
    #[verifier::rlimit(40)]
    pub fn auction_pass(&mut self) -> (result: Result<(), GameError>)
        requires
            old(self).wf(),
        ensures
            final(self).wf(),
            pass_outcome(*old(self), *final(self), result),
    {
        if self.phase != Phase::Auction {
            return Err(GameError::InvalidPhase);
        }
        match &self.auction {
            None => return Err(GameError::InvalidPhase),
            Some(a) => if a.active.len() == 0 {
                return Err(GameError::InvalidPhase);
            },
        }
        let mut a = self.auction.take().unwrap();
        let ghost x = a;
        assert(old(self).auction_wf(x));
        let index = a.bidder_index;
        let _removed = a.active.remove(index);
        let len = a.active.len();
        if len > 0 {
            a.bidder_index = a.bidder_index % len;
            let skip = match a.high_bidder {
                Some(h) => len > 1 && a.active[a.bidder_index] == h,
                None => false,
            };
            if skip {
                let ghost at = a.bidder_index as int;
                proof { lemma_next_index(at, len as int); }
                a.bidder_index = (a.bidder_index + 1) % len;
                proof {
                    let j = a.bidder_index as int;
                    if j < at {
                        assert(a.active@[j] < a.active@[at]);
                    } else {
                        assert(a.active@[at] < a.active@[j]);
                    }
                }
            }
        }
        proof {
            assert(a.active@ == x.active@.remove(index as int));
            assert forall|j: int, k: int| 0 <= j < k < a.active@.len() implies #[trigger] a.active@[j]
                < #[trigger] a.active@[k] by {
                if j < index {
                    if k < index {
                        assert(x.active@[j] < x.active@[k]);
                    } else {
                        assert(x.active@[j] < x.active@[k + 1]);
                    }
                } else {
                    assert(x.active@[j + 1] < x.active@[k + 1]);
                }
            }
            assert forall|k: int| 0 <= k < a.active@.len() implies #[trigger] a.active@[k] < self.players@.len() by {
                if k < index {
                    assert(x.active@[k] < self.players@.len());
                } else {
                    assert(x.active@[k + 1] < self.players@.len());
                }
            }
        }
        proof {
            if x.high_bidder is Some && a.active@.len() > 0 {
                let h = x.high_bidder->0;
                let q = choose|q: int| 0 <= q < x.active@.len() && x.active@[q] == h;
                assert(q != index);
                if q < index {
                    assert(a.active@[q] == h);
                } else {
                    assert(a.active@[q - 1] == h);
                }
            }
        }
        self.auction = Some(a);
        assert(self.auction_wf(a));
        self.normalize_auction();
        Ok(())
    }
}

} // verus!

verus! {

/// The player record `p` with `delta` more credits.
pub open spec fn credited(p: Player, delta: int) -> Player {
    Player { credits: (p.credits + delta) as i32, ..p }
}

/// The common refusals of the model-management actions, in the order they are checked.
pub open spec fn manage_refusal(a: Game, tile: usize, r: Result<(), GameError>) -> Option<bool> {
    if a.phase != Phase::Manage {
        Some(r == Err::<(), GameError>(GameError::InvalidPhase))
    } else if !is_model_tile(tile as int) {
        Some(r == Err::<(), GameError>(GameError::UnknownModel))
    } else if a.models@[tile].owner != Some(a.current_player) {
        Some(r == Err::<(), GameError>(GameError::NotOwner))
    } else {
        None
    }
}

/// What `AllocateTensor(tile)` does.
pub open spec fn allocate_outcome(a: Game, b: Game, tile: usize, r: Result<(), GameError>) -> bool {
    let p = a.current_player as int;
    let st = a.models@[tile];
    let family = family_of_tile(tile as int);
    let cost = tensor_cost_of(family);
    match manage_refusal(a, tile, r) {
        Some(refused) => refused && b == a,
        None => if owned_in_family(a.models@, p, family) < 3 {
            invalid_action(r, "three models from the same family are required"@) && b == a
        } else if archived_among(a.models@, p, family, 4) {
            invalid_action(r, "an archived family cannot allocate tensors"@) && b == a
        } else if st.tensors >= 4 || st.tensors != family_low(a.models@, p, family) {
            invalid_action(r, "tensors must be allocated evenly"@) && b == a
        } else if a.credits_of(p) < cost {
            r == Err::<(), GameError>(GameError::InsufficientFunds) && b == a
        } else {
            &&& r is Ok
            &&& b.players@ == a.players@.update(p, credited(a.players@[p], -cost))
            &&& b.models@ == a.models@.insert(tile, ModelState { tensors: (st.tensors + 1) as u8, ..st })
            &&& b.logs@ == a.logs@.push(GameLog::TensorAllocated {
                player: p as usize,
                tile,
                tensors: (st.tensors + 1) as u8,
            })
            &&& b == with_books(a, b)
        },
    }
}

/// What `ReleaseTensor(tile)` does.
pub open spec fn release_outcome(a: Game, b: Game, tile: usize, r: Result<(), GameError>) -> bool {
    let p = a.current_player as int;
    let st = a.models@[tile];
    let family = family_of_tile(tile as int);
    let refund = tensor_cost_of(family) / 2;
    match manage_refusal(a, tile, r) {
        Some(refused) => refused && b == a,
        None => if st.tensors == 0 || st.tensors != family_high(a.models@, p, family) {
            invalid_action(r, "tensors must be released evenly"@) && b == a
        } else {
            &&& r is Ok
            &&& b.players@ == a.players@.update(p, credited(a.players@[p], refund))
            &&& b.models@ == a.models@.insert(tile, ModelState { tensors: (st.tensors - 1) as u8, ..st })
            &&& b.logs@ == a.logs@.push(GameLog::ReleasedTensor {
                player: p as usize,
                tile,
                tensors: (st.tensors - 1) as u8,
            })
            &&& b == with_books(a, b)
        },
    }
}

/// What `Archive(tile)` does.
pub open spec fn archive_outcome(a: Game, b: Game, tile: usize, r: Result<(), GameError>) -> bool {
    let p = a.current_player as int;
    let st = a.models@[tile];
    let family = family_of_tile(tile as int);
    let value = price_of(parameters_of_tile(tile as int)) / 2;
    match manage_refusal(a, tile, r) {
        Some(refused) => refused && b == a,
        None => if st.archived {
            invalid_action(r, "already archived"@) && b == a
        } else if tensored_among(a.models@, p, family, 4) {
            invalid_action(r, "release all tensors in the family first"@) && b == a
        } else {
            &&& r is Ok
            &&& b.players@ == a.players@.update(p, credited(a.players@[p], value))
            &&& b.models@ == a.models@.insert(tile, ModelState { archived: true, ..st })
            &&& b.logs@ == a.logs@.push(GameLog::Archived { player: p as usize, tile })
            &&& b == with_books(a, b)
        },
    }
}

/// Cost of restoring an archived model: its archive value plus 10%, rounded up.
pub open spec fn restore_cost(tile: int) -> int {
    ((price_of(parameters_of_tile(tile)) / 2) * 110 + 99) / 100
}

/// What `Restore(tile)` does.
pub open spec fn restore_outcome(a: Game, b: Game, tile: usize, r: Result<(), GameError>) -> bool {
    let p = a.current_player as int;
    let st = a.models@[tile];
    let cost = restore_cost(tile as int);
    match manage_refusal(a, tile, r) {
        Some(refused) => refused && b == a,
        None => if !st.archived {
            invalid_action(r, "model is not archived"@) && b == a
        } else if a.credits_of(p) < cost {
            r == Err::<(), GameError>(GameError::InsufficientFunds) && b == a
        } else {
            &&& r is Ok
            &&& b.players@ == a.players@.update(p, credited(a.players@[p], -cost))
            &&& b.models@ == a.models@.insert(tile, ModelState { archived: false, ..st })
            &&& b.logs@ == a.logs@.push(GameLog::Restored { player: p as usize, tile })
            &&& b == with_books(a, b)
        },
    }
}

impl Game {
    /// Allocates one tensor on a model of a family the current player holds
    /// at least three models of; tensors go on evenly.
    pub fn allocate_tensor(&mut self, tile: usize) -> (result: Result<(), GameError>)
        requires
            old(self).wf(),
        ensures
            final(self).wf(),
            allocate_outcome(*old(self), *final(self), tile, result),
    {
        if self.phase != Phase::Manage {
            return Err(GameError::InvalidPhase);
        }
        let definition = match model(tile) {
            Some(d) => d,
            None => return Err(GameError::UnknownModel),
        };
        let player = self.current_player;
        let state = self.read_model(tile);
        assert(self.models@.contains_key(tile));
        let owned = match state.owner {
            Some(o) => o == player,
            None => false,
        };
        if !owned {
            return Err(GameError::NotOwner);
        }
        if !self.has_tensor_access(player, definition.family) {
            return Err(GameError::InvalidAction(String::from_str("three models from the same family are required")));
        }
        let scan = self.scan_family(player, definition.family);
        if scan.any_archived {
            return Err(GameError::InvalidAction(String::from_str("an archived family cannot allocate tensors")));
        }
        if state.tensors >= 4 || state.tensors != scan.low {
            return Err(GameError::InvalidAction(String::from_str("tensors must be allocated evenly")));
        }
        if self.players[player].credits < definition.tensor_cost {
            return Err(GameError::InsufficientFunds);
        }
        self.players[player].credits = self.players[player].credits - definition.tensor_cost;
        let tensors = state.tensors + 1;
        proof { lemma_scanned(old(self).models@, player as int, tile); }
        self.write_model(tile, ModelState { tensors, ..state });
        self.logs.push(GameLog::TensorAllocated { player, tile, tensors });
        Ok(())
    }

    /// Releases one tensor of a model for half its cost; tensors come off evenly.
    pub fn release_tensor(&mut self, tile: usize) -> (result: Result<(), GameError>)
        requires
            old(self).wf(),
            old(self).credits_at_most(i32::MAX - 100),
        ensures
            final(self).wf(),
            release_outcome(*old(self), *final(self), tile, result),
    {
        if self.phase != Phase::Manage {
            return Err(GameError::InvalidPhase);
        }
        let definition = match model(tile) {
            Some(d) => d,
            None => return Err(GameError::UnknownModel),
        };
        let player = self.current_player;
        let state = self.read_model(tile);
        assert(self.models@.contains_key(tile));
        let owned = match state.owner {
            Some(o) => o == player,
            None => false,
        };
        if !owned {
            return Err(GameError::NotOwner);
        }
        let scan = self.scan_family(player, definition.family);
        if state.tensors == 0 || state.tensors != scan.high {
            return Err(GameError::InvalidAction(String::from_str("tensors must be released evenly")));
        }
        self.players[player].credits = self.players[player].credits + definition.tensor_cost / 2;
        let tensors = state.tensors - 1;
        self.write_model(tile, ModelState { tensors, ..state });
        self.logs.push(GameLog::ReleasedTensor { player, tile, tensors });
        Ok(())
    }

    /// Archives a model for half its price; a family must hold no tensors.
    pub fn archive(&mut self, tile: usize) -> (result: Result<(), GameError>)
        requires
            old(self).wf(),
            old(self).credits_at_most(i32::MAX - 150),
        ensures
            final(self).wf(),
            archive_outcome(*old(self), *final(self), tile, result),
    {
        if self.phase != Phase::Manage {
            return Err(GameError::InvalidPhase);
        }
        let definition = match model(tile) {
            Some(d) => d,
            None => return Err(GameError::UnknownModel),
        };
        let player = self.current_player;
        let state = self.read_model(tile);
        assert(self.models@.contains_key(tile));
        let owned = match state.owner {
            Some(o) => o == player,
            None => false,
        };
        if !owned {
            return Err(GameError::NotOwner);
        }
        if state.archived {
            return Err(GameError::InvalidAction(String::from_str("already archived")));
        }
        let scan = self.scan_family(player, definition.family);
        if scan.any_tensors {
            return Err(GameError::InvalidAction(String::from_str("release all tensors in the family first")));
        }
        let value = definition.archive_value();
        proof {
            crate::catalog::lemma_price_range(parameters_of_tile(tile as int));
            lemma_scanned(old(self).models@, player as int, tile);
        }
        self.write_model(tile, ModelState { archived: true, ..state });
        self.players[player].credits = self.players[player].credits + value;
        self.logs.push(GameLog::Archived { player, tile });
        Ok(())
    }

    /// Restores an archived model for its archive value plus 10%.
    pub fn restore(&mut self, tile: usize) -> (result: Result<(), GameError>)
        requires
            old(self).wf(),
        ensures
            final(self).wf(),
            restore_outcome(*old(self), *final(self), tile, result),
    {
        if self.phase != Phase::Manage {
            return Err(GameError::InvalidPhase);
        }
        let definition = match model(tile) {
            Some(d) => d,
            None => return Err(GameError::UnknownModel),
        };
        let player = self.current_player;
        let state = self.read_model(tile);
        assert(self.models@.contains_key(tile));
        let owned = match state.owner {
            Some(o) => o == player,
            None => false,
        };
        if !owned {
            return Err(GameError::NotOwner);
        }
        if !state.archived {
            return Err(GameError::InvalidAction(String::from_str("model is not archived")));
        }
        proof { crate::catalog::lemma_price_range(parameters_of_tile(tile as int)); }
        let cost = (definition.archive_value() * 110 + 99) / 100;
        if self.players[player].credits < cost {
            return Err(GameError::InsufficientFunds);
        }
        self.players[player].credits = self.players[player].credits - cost;
        self.write_model(tile, ModelState { archived: false, ..state });
        self.logs.push(GameLog::Restored { player, tile });
        Ok(())
    }
}

} // verus!
