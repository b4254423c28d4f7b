//! Checking that a game read from outside (a save file) is one the rules can
//! play: the structural invariant, and room for the credits to grow.
use vstd::prelude::*;
use crate::catalog::{is_model_tile, model_at, tile_of_index, BOARD_SIZE, MODEL_COUNT};
use crate::state::{unowned_model, AuctionState, Game, Phase};
use crate::sums::lemma_roster_tiles;

verus! {

broadcast use vstd::laws_cmp::group_laws_cmp;

/// The tiles of the first `k` roster models.
pub open spec fn roster_set(k: int) -> Set<usize>
    decreases k,
{
    if k <= 0 {
        Set::empty()
    } else {
        roster_set(k - 1).insert(tile_of_index(k - 1) as usize)
    }
}

proof fn lemma_roster_set(k: int)
    requires
        0 <= k <= 16,
    ensures
        roster_set(k).finite(),
        roster_set(k).len() == k,
        forall|t: usize| #[trigger] roster_set(k).contains(t) <==> exists|i: int| 0 <= i < k && tile_of_index(i) == t,
    decreases k,
{
    lemma_roster_tiles();
    if k > 0 {
        lemma_roster_set(k - 1);
        assert(!roster_set(k - 1).contains(tile_of_index(k - 1) as usize));
        assert forall|t: usize| #[trigger] roster_set(k).contains(t) <==> exists|i: int| 0 <= i < k && tile_of_index(i) == t by {
            if t == tile_of_index(k - 1) as usize {
                assert(tile_of_index(k - 1) == t);
            }
            if exists|i: int| 0 <= i < k && tile_of_index(i) == t {
                let i = choose|i: int| 0 <= i < k && tile_of_index(i) == t;
                if i < k - 1 {
                    assert(roster_set(k - 1).contains(t));
                }
            }
        }
    }
}

/// Credits at most this leave room for any number of moves up to the bots'
/// limit, and one more by the human.
pub open spec fn playable_credit_bound() -> int {
    i32::MAX - 36_000_000
}

impl Game {
    /// Whether the models map holds exactly the model tiles.
    fn models_complete(&self) -> (complete: bool)
        ensures
            complete == forall|t: usize| #[trigger] self.models@.contains_key(t) <==> is_model_tile(t as int),
    {
        proof {
            lemma_roster_tiles();
            lemma_roster_set(16);
        }
        let mut i: usize = 0;
        while i < MODEL_COUNT
            invariant
                i <= MODEL_COUNT,
                forall|k: int| 0 <= k < i ==> self.models@.contains_key(#[trigger] tile_of_index(k) as usize),
            decreases MODEL_COUNT - i,
        {
            let tile = model_at(i).tile;
            if self.models.get(&tile).is_none() {
                proof {
                    assert(is_model_tile(tile as int));
                }
                return false;
            }
            i = i + 1;
        }
        let ghost roster = roster_set(16);
        assert forall|t: usize| #[trigger] roster.contains(t) <==> is_model_tile(t as int) by {
            if is_model_tile(t as int) {
                assert(tile_of_index(crate::catalog::index_of_tile(t as int)) == t);
            }
        }
        assert(roster.subset_of(self.models@.dom()));
        if self.models.len() != MODEL_COUNT {
            proof {
                if forall|t: usize| #[trigger] self.models@.contains_key(t) <==> is_model_tile(t as int) {
                    assert(self.models@.dom() =~= roster);
                }
            }
            return false;
        }
        proof {
            vstd::set_lib::lemma_subset_equality(roster, self.models@.dom());
        }
        true
    }

    /// Whether a running auction is in order.
    fn auction_in_order(&self, a: &AuctionState) -> (ok: bool)
        requires
            self.players@.len() <= 4,
        ensures
            ok == self.auction_wf(*a),
    {
        let n = self.players.len();
        if !(a.tile < BOARD_SIZE && a.tile % 3 != 0) {
            return false;
        }
        let len = a.active.len();
        let mut k: usize = 0;
        while k < len
            invariant
                len == a.active@.len(),
                n == self.players@.len(),
                k <= len,
                forall|j: int| 0 <= j < k ==> #[trigger] a.active@[j] < n,
                forall|j: int, l: int| 0 <= j < l < k ==> #[trigger] a.active@[j] < #[trigger] a.active@[l],
            decreases len - k,
        {
            if a.active[k] >= n {
                return false;
            }
            if k > 0 && a.active[k - 1] >= a.active[k] {
                return false;
            }
            proof {
                assert forall|j: int, l: int| 0 <= j < l < k + 1 implies #[trigger] a.active@[j] < #[trigger] a.active@[l] by {
                    if l == k && j < k - 1 {
                        assert(a.active@[j] < a.active@[k - 1]);
                    }
                }
            }
            k = k + 1;
        }
        if len > 0 && a.bidder_index >= len {
            return false;
        }
        if a.bidder_index < len {
            let settled = len == 1 && match a.high_bidder {
                Some(h) => h == a.active[0],
                None => false,
            };
            if !settled {
                match a.high_bidder {
                    Some(h) => {
                        if h == a.active[a.bidder_index] {
                            return false;
                        }
                    },
                    None => {},
                }
            }
        }
        match a.high_bidder {
            Some(h) => {
                if h >= n {
                    return false;
                }
                if a.high_bid < 0 || a.high_bid > self.players[h].credits {
                    return false;
                }
                if self.phase != Phase::Auction {
                    return false;
                }
                let mut found = len == 0;
                let mut q: usize = 0;
                while q < len
                    invariant
                        len == a.active@.len(),
                        q <= len,
                        found == (len == 0 || exists|j: int| 0 <= j < q && a.active@[j] == h),
                    decreases len - q,
                {
                    if a.active[q] == h {
                        found = true;
                    }
                    q = q + 1;
                }
                if !found {
                    return false;
                }
            },
            None => {
                if a.high_bid != 0 {
                    return false;
                }
            },
        }
        true
    }

    /// Whether the game is well formed and leaves room for its credits to
    /// grow, so that players and bots can move in it.
    pub fn is_playable(&self) -> (ok: bool)
        ensures
            ok == (self.wf() && self.credits_at_most(playable_credit_bound())),
    {
        let n = self.players.len();
        if n < 1 || n > 4 {
            return false;
        }
        let mut i: usize = 0;
        while i < n
            invariant
                n == self.players@.len(),
                i <= n,
                forall|k: int| 0 <= k < i ==> (#[trigger] self.players@[k]).id == k,
                forall|k: int| 0 <= k < i ==> (#[trigger] self.players@[k]).position < BOARD_SIZE,
                forall|k: int| 0 <= k < i ==> 0 <= (#[trigger] self.players@[k]).credits <= playable_credit_bound(),
            decreases n - i,
        {
            let p = &self.players[i];
            if p.id != i || p.position >= BOARD_SIZE || p.credits < 0 || p.credits > i32::MAX - 36_000_000 {
                return false;
            }
            i = i + 1;
        }
        if !self.models_complete() {
            return false;
        }
        proof { lemma_roster_tiles(); }
        let mut m: usize = 0;
        while m < MODEL_COUNT
            invariant
                n == self.players@.len(),
                m <= MODEL_COUNT,
                forall|t: usize| #[trigger] self.models@.contains_key(t) <==> is_model_tile(t as int),
                forall|k: int| 0 <= k < m ==> (#[trigger] self.models@[tile_of_index(k) as usize]).tensors <= 4,
                forall|k: int| 0 <= k < m ==> match (#[trigger] self.models@[tile_of_index(k) as usize]).owner {
                    Some(o) => o < n,
                    None => true,
                },
                forall|k: int| 0 <= k < m ==> {
                    let st = #[trigger] self.models@[tile_of_index(k) as usize];
                    &&& st.archived ==> st.tensors == 0
                    &&& st.owner is None ==> st == unowned_model()
                },
            decreases MODEL_COUNT - m,
        {
            let tile = model_at(m).tile;
            let state = self.read_model(tile);
            assert(self.models@.contains_key(tile) && state == self.models@[tile]);
            if state.tensors > 4 || (state.archived && state.tensors != 0) {
                return false;
            }
            if state.owner.is_none() && (state.tensors != 0 || state.archived) {
                return false;
            }
            match state.owner {
                Some(o) => {
                    if o >= n {
                        return false;
                    }
                },
                None => {},
            }
            m = m + 1;
        }
        assert forall|t: usize| #[trigger] self.models@.contains_key(t) implies self.models@[t].tensors <= 4 && match self.models@[t].owner {
            Some(o) => o < n,
            None => true,
        } && (self.models@[t].archived ==> self.models@[t].tensors == 0) && (self.models@[t].owner is None
            ==> self.models@[t] == unowned_model()) by {
            let k = crate::catalog::index_of_tile(t as int);
            assert(tile_of_index(k) as usize == t);
            let _ = self.models@[tile_of_index(k) as usize];
        }
        if self.deck.len() == 0 || self.deck_index >= self.deck.len() || self.current_player >= n {
            return false;
        }
        if self.round < 1 || self.round > self.config.round_limit {
            return false;
        }
        match self.phase {
            Phase::OfferPurchase { tile } => {
                if !(tile < BOARD_SIZE && tile % 3 != 0) {
                    return false;
                }
            },
            _ => {},
        }
        match &self.auction {
            Some(a) => {
                if !self.auction_in_order(a) {
                    return false;
                }
                if self.phase == Phase::Auction && a.active.len() == 0 {
                    return false;
                }
            },
            None => {
                if self.phase == Phase::Auction {
                    return false;
                }
            },
        }
        let pending = self.pending_bank_auctions.len();
        let mut k: usize = 0;
        while k < pending
            invariant
                pending == self.pending_bank_auctions@.len(),
                k <= pending,
                forall|j: int| 0 <= j < k ==> is_model_tile(#[trigger] self.pending_bank_auctions@[j] as int),
            decreases pending - k,
        {
            let tile = self.pending_bank_auctions[k];
            if !(tile < BOARD_SIZE && tile % 3 != 0) {
                return false;
            }
            k = k + 1;
        }
        let count = self.winners.len();
        let mut w: usize = 0;
        while w < count
            invariant
                count == self.winners@.len(),
                n == self.players@.len(),
                w <= count,
                forall|j: int| 0 <= j < w ==> #[trigger] self.winners@[j] < n,
            decreases count - w,
        {
            if self.winners[w] >= n {
                return false;
            }
            w = w + 1;
        }
        if self.phase == Phase::AwaitRoll && self.doubles_streak >= 3 {
            return false;
        }
        if self.extra_turn && self.doubles_streak >= 3 {
            return false;
        }
        true
    }
}

} // verus!
