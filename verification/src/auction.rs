//! Auctions: opening one for a model and settling it when bidding is over.
use vstd::prelude::*;
use crate::catalog::is_model_tile;
use crate::state::{
    alive_among, alive_ids, credits_changed_only, log_extends, same_people, same_turn,
    AuctionState, Game, GameLog, ModelState, Phase, Player,
};

verus! {

/// A new auction for `tile` among the players who are not bankrupt.
pub open spec fn fresh_auction(a: AuctionState, tile: usize, g: Game) -> bool {
    &&& a.tile == tile
    &&& a.active@ == alive_ids(g.players@)
    &&& a.bidder_index == 0
    &&& a.high_bid == 0
    &&& a.high_bidder is None
}

/// Bidding is over: nobody is left, or the last one left holds the high bid.
pub open spec fn auction_over(a: AuctionState) -> bool {
    a.active@.len() == 0 || (a.active@.len() == 1 && a.high_bidder == Some(a.active@[0]))
}

/// The game's auction is running and over.
pub open spec fn settles(g: Game) -> bool {
    g.auction matches Some(a) && auction_over(a)
}

/// What settling the current auction does to the models: the high bidder, if
/// any, becomes the owner.
pub open spec fn settled_models(g: Game) -> Map<usize, ModelState> {
    match g.auction {
        Some(a) => match a.high_bidder {
            Some(w) => g.models@.insert(a.tile, ModelState { owner: Some(w), ..g.models@[a.tile] }),
            None => g.models@,
        },
        None => g.models@,
    }
}

/// What settling an auction won by `winner` for `price` does, followed by the
/// next bank auction or the return to managing.
pub open spec fn won_and_moved_on(a: Game, b: Game, winner: usize, tile: usize, price: int) -> bool {
    let player = a.players@[winner as int];
    &&& b.players@ == a.players@.update(winner as int, Player { credits: (player.credits - price) as i32, ..player })
    &&& b.models@ == a.models@.insert(tile, ModelState { owner: Some(winner), ..a.models@[tile] })
    &&& b.logs@ == a.logs@.push(GameLog::Bought { player: winner, tile, price: price as i32 })
    &&& moved_on(a, b)
}

/// After an auction is settled: the next model waiting for the bank goes to
/// auction, or play returns to managing.
pub open spec fn moved_on(a: Game, b: Game) -> bool {
    &&& b.winners == a.winners
    &&& same_turn(a, b)
    &&& if a.pending_bank_auctions@.len() > 0 && alive_ids(a.players@).len() > 0 {
        &&& b.auction matches Some(x) && fresh_auction(x, a.pending_bank_auctions@.last(), a)
        &&& b.pending_bank_auctions@ == a.pending_bank_auctions@.drop_last()
        &&& b.phase == Phase::Auction
    } else {
        &&& b.auction is None
        &&& b.pending_bank_auctions@.len() == 0
        &&& b.phase == Phase::Manage
    }
}

proof fn lemma_alive_among(players: Seq<crate::state::Player>, k: int)
    requires
        0 <= k <= players.len(),
        forall|i: int| 0 <= i < players.len() ==> (#[trigger] players[i]).id == i,
    ensures
        forall|j: int| 0 <= j < alive_among(players, k).len() ==> #[trigger] alive_among(players, k)[j] < k,
        forall|j: int, l: int| 0 <= j < l < alive_among(players, k).len() ==> #[trigger] alive_among(players, k)[j]
            < #[trigger] alive_among(players, k)[l],
    decreases k,
{
    if k > 0 {
        lemma_alive_among(players, k - 1);
        let prev = alive_among(players, k - 1);
        if !players[k - 1].bankrupt {
            let cur = prev.push(players[k - 1].id);
            assert(alive_among(players, k) == cur);
            assert forall|j: int| 0 <= j < cur.len() implies #[trigger] cur[j] < k by {
                if j < prev.len() {
                    assert(cur[j] == prev[j]);
                }
            }
            assert forall|j: int, l: int| 0 <= j < l < cur.len() implies #[trigger] cur[j] < #[trigger] cur[l] by {
                if l < prev.len() {
                    assert(cur[j] == prev[j] && cur[l] == prev[l]);
                } else {
                    assert(cur[j] == prev[j]);
                }
            }
        }
    }
}

/// Players with the same ids and bankruptcy flags have the same survivors.
pub proof fn lemma_alive_same(a: Seq<crate::state::Player>, b: Seq<crate::state::Player>, k: int)
    requires
        a.len() == b.len(),
        0 <= k <= a.len(),
        forall|i: int| 0 <= i < a.len() ==> (#[trigger] a[i]).bankrupt == b[i].bankrupt && a[i].id == b[i].id,
    ensures
        alive_among(a, k) == alive_among(b, k),
    decreases k,
{
    if k > 0 {
        lemma_alive_same(a, b, k - 1);
    }
}

impl Game {
    /// Opens an auction for `tile` among the players who are not bankrupt.
    pub fn open_auction(&mut self, tile: usize)
        requires
            old(self).wf(),
            old(self).phase != Phase::Auction,
            is_model_tile(tile as int),
        ensures
            final(self).wf(),
            final(self).auction matches Some(a) && fresh_auction(a, tile, *old(self)),
            final(self).phase == if alive_ids(old(self).players@).len() > 0 {
                Phase::Auction
            } else {
                old(self).phase
            },
            final(self).players == old(self).players,
            final(self).models == old(self).models,
            final(self).logs == old(self).logs,
            final(self).pending_bank_auctions == old(self).pending_bank_auctions,
            final(self).winners == old(self).winners,
            same_turn(*old(self), *final(self)),
    {
        let n = self.players.len();
        let mut active: Vec<usize> = Vec::new();
        let mut i: usize = 0;
        proof { lemma_alive_among(self.players@, self.players@.len() as int); }
        while i < n
            invariant
                self.wf(),
                n == self.players@.len(),
                i <= n,
                active@ == alive_among(self.players@, i as int),
            decreases n - i,
        {
            if !self.players[i].bankrupt {
                active.push(self.players[i].id);
            }
            i = i + 1;
        }
        proof { lemma_alive_among(self.players@, n as int); }
        let bidders = active.len();
        self.auction = Some(AuctionState { tile, active, bidder_index: 0, high_bid: 0, high_bidder: None });
        if bidders > 0 {
            self.phase = Phase::Auction;
        }
    }

    /// Pays for and hands over the model of an auction whose bidding is over.
    fn settle_auction(&mut self)
        requires
            old(self).core_wf(),
            settles(*old(self)),
        ensures
            final(self).wf(),
            final(self).auction is None,
            final(self).models@ == settled_models(*old(self)),
            alive_ids(final(self).players@) == alive_ids(old(self).players@),
            same_people(*old(self), *final(self)),
            log_extends(*old(self), *final(self)),
            final(self).winners == old(self).winners,
            final(self).phase == Phase::Manage,
            final(self).pending_bank_auctions == old(self).pending_bank_auctions,
            old(self).auction->0.high_bidder matches Some(w) ==> {
                let player = old(self).players@[w as int];
                let price = old(self).auction->0.high_bid;
                &&& final(self).players@ == old(self).players@.update(w as int, Player { credits: (player.credits - price) as i32, ..player })
                &&& final(self).logs@ == old(self).logs@.push(GameLog::Bought {
                    player: w,
                    tile: old(self).auction->0.tile,
                    price,
                })
            },
            old(self).auction->0.high_bidder is None ==> final(self).players == old(self).players
                && final(self).logs == old(self).logs,
            same_turn(*old(self), *final(self)),
    {
        let auction = self.auction.take().unwrap();
        self.phase = Phase::Manage;
        assert(old(self).auction_wf(auction));
        if let Some(winner) = auction.high_bidder {
            self.players[winner].credits = self.players[winner].credits - auction.high_bid;
            let state = self.read_model(auction.tile);
            assert(old(self).models@.contains_key(auction.tile));
            assert(state.tensors <= 4);
            self.write_model(auction.tile, ModelState { owner: Some(winner), ..state });
            self.logs.push(GameLog::Bought { player: winner, tile: auction.tile, price: auction.high_bid });
            let ghost player = old(self).players@[winner as int];
            assert(self.players@ =~= old(self).players@.update(winner as int, Player { credits: (player.credits - auction.high_bid) as i32, ..player }));
        }
        proof {
            lemma_alive_same(old(self).players@, self.players@, self.players@.len() as int);
            let n = self.players@.len();
            assert(forall|i: int| 0 <= i < n ==> (#[trigger] self.players@[i]).id == i);
            assert(forall|i: int| 0 <= i < n ==> (#[trigger] self.players@[i]).position < 24);
            assert(forall|i: int| 0 <= i < n ==> (#[trigger] self.players@[i]).credits >= 0);
            assert(forall|t: usize| #[trigger] self.models@.contains_key(t) <==> is_model_tile(t as int));
            assert(forall|t: usize| #[trigger] self.models@.contains_key(t) ==> self.models@[t].tensors <= 4);
            assert(forall|t: usize| #[trigger] self.models@.contains_key(t) ==> match self.models@[t].owner {
                Some(o) => o < n,
                None => true,
            });
        }
    }

    /// Settles the auction if bidding is over: the high bidder pays and takes
    /// the model. Then the next model waiting to go back to the bank is
    /// auctioned, or play returns to managing.
    pub fn normalize_auction(&mut self)
        requires
            old(self).core_wf(),
            old(self).phase == Phase::Auction ==> (old(self).auction matches Some(a) && (a.active@.len() > 0
                || auction_over(a))),
        ensures
            final(self).wf(),
            !settles(*old(self)) ==> *final(self) == *old(self),
            settles(*old(self)) ==> {
                &&& final(self).models@ == settled_models(*old(self))
                &&& same_people(*old(self), *final(self))
                &&& log_extends(*old(self), *final(self))
                &&& final(self).no_bids()
                &&& match old(self).auction->0.high_bidder {
                    Some(w) => won_and_moved_on(*old(self), *final(self), w, old(self).auction->0.tile, old(self).auction->0.high_bid as int),
                    None => final(self).players == old(self).players && final(self).models@ == old(self).models@
                        && final(self).logs == old(self).logs && moved_on(*old(self), *final(self)),
                }
            },
            same_turn(*old(self), *final(self)),
    {
        let finish = match &self.auction {
            Some(a) => a.active.len() == 0 || (a.active.len() == 1 && match a.high_bidder {
                Some(h) => h == a.active[0],
                None => false,
            }),
            None => false,
        };
        if !finish {
            return;
        }
        let ghost start = *self;
        self.settle_auction();
        let ghost settled = *self;
        let mut first = true;
        let mut opened = false;
        while !opened
            invariant
                self.wf(),
                start == *old(self),
                alive_ids(self.players@) == alive_ids(start.players@),
                !opened ==> self.auction is None,
                self.models@ == settled_models(start),
                self.players == settled.players,
                self.winners == start.winners,
                log_extends(settled, *self),
                self.logs == settled.logs,
                same_turn(start, *self),
                first && !opened ==> self.pending_bank_auctions@ == start.pending_bank_auctions@,
                self.pending_bank_auctions@.len() <= start.pending_bank_auctions@.len(),
                !first && !opened ==> alive_ids(start.players@).len() == 0,
                opened ==> {
                    &&& first
                    &&& start.pending_bank_auctions@.len() > 0
                    &&& alive_ids(start.players@).len() > 0
                    &&& self.auction matches Some(a) && fresh_auction(a, start.pending_bank_auctions@.last(), start)
                    &&& self.pending_bank_auctions@ == start.pending_bank_auctions@.drop_last()
                    &&& self.phase == Phase::Auction
                },
                !opened ==> self.pending_bank_auctions@ =~= start.pending_bank_auctions@.subrange(
                    0,
                    self.pending_bank_auctions@.len() as int,
                ),
            ensures
                opened || (self.phase == Phase::Manage && self.pending_bank_auctions@.len() == 0
                    && self.auction is None),
            decreases self.pending_bank_auctions@.len() + if opened { 0int } else { 1int },
        {
            let ghost before = self.pending_bank_auctions@;
            match self.pending_bank_auctions.pop() {
                Some(tile) => {
                    assert(before =~= start.pending_bank_auctions@.subrange(0, before.len() as int));
                    assert(self.pending_bank_auctions@ =~= start.pending_bank_auctions@.subrange(
                        0,
                        self.pending_bank_auctions@.len() as int,
                    ));
                    self.open_auction(tile);
                    let empty = match &self.auction {
                        Some(a) => a.active.len() == 0,
                        None => false,
                    };
                    if empty {
                        assert(self.pending_bank_auctions@ =~= start.pending_bank_auctions@.subrange(
                            0,
                            self.pending_bank_auctions@.len() as int,
                        ));
                        self.auction = None;
                        first = false;
                    } else {
                        opened = true;
                    }
                },
                None => {
                    self.phase = Phase::Manage;
                    break;
                },
            }
        }
        assert(settles(start));
        assert(self.models@ == settled_models(start));
        assert(same_people(start, *self));
        assert(log_extends(start, *self));
        assert(self.no_bids());
        assert(start.auction->0.high_bidder matches Some(w) ==> {
                    &&& credits_changed_only(start.players@, self.players@, w as int)
                    &&& self.credits_of(w as int) == start.credits_of(w as int) - start.auction->0.high_bid
                });
        assert(start.auction->0.high_bidder is None ==> self.players == start.players);
        assert(self.winners == start.winners);
        proof {
            if start.pending_bank_auctions@.len() > 0 && alive_ids(start.players@).len() > 0 {
                assert(opened);
            } else {
                assert(self.auction is None);
                assert(self.pending_bank_auctions@.len() == 0);
                assert(self.phase == Phase::Manage);
            }
        }
        assert(start.auction->0.high_bidder matches Some(w) ==>
                    self.logs@[start.logs@.len() as int] == (GameLog::Bought {
                        player: w,
                        tile: start.auction->0.tile,
                        price: start.auction->0.high_bid,
                    }));
    }
}

} // verus!

verus! {

impl Game {
    /// Opens an auction for `tile`; if nobody is left to bid, the models
    /// waiting for the bank are dropped and play returns to managing.
    pub fn start_auction(&mut self, tile: usize)
        requires
            old(self).wf(),
            old(self).phase != Phase::Auction,
            is_model_tile(tile as int),
        ensures
            final(self).wf(),
            final(self).no_bids(),
            final(self).players == old(self).players,
            final(self).models@ == old(self).models@,
            final(self).logs == old(self).logs,
            final(self).winners == old(self).winners,
            same_turn(*old(self), *final(self)),
            alive_ids(old(self).players@).len() > 0 ==> {
                &&& final(self).auction matches Some(a) && fresh_auction(a, tile, *old(self))
                &&& final(self).phase == Phase::Auction
                &&& final(self).pending_bank_auctions == old(self).pending_bank_auctions
            },
            alive_ids(old(self).players@).len() == 0 ==> {
                &&& final(self).auction is None
                &&& final(self).pending_bank_auctions@.len() == 0
                &&& final(self).phase == Phase::Manage
            },
    {
        self.open_auction(tile);
        self.normalize_auction();
    }
}

} // verus!
