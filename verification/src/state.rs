//! The game state: players, model ownership, phases, auctions and the event log.
use vstd::prelude::*;
use std::collections::BTreeMap;
use crate::catalog::{
    family_of_tile, family_tile, is_model_tile, parameters_of_tile, price_of, tensor_cost_of,
    tile_of_index, Card, Difficulty, ModelFamily, BOARD_SIZE, MODEL_COUNT,
};
use crate::rng::SimpleRng;

verus! {

/// Settings chosen when a game starts.
#[derive(Debug, Clone, PartialEq, Eq)]
pub struct GameConfig {
    pub human_name: String,
    pub bot_count: u8,
    pub round_limit: u16,
    pub seed: u64,
    pub difficulty: Difficulty,
}

/// Ownership and upgrades of one model.
#[derive(Debug, Clone, Copy, PartialEq, Eq, Structural)]
pub struct ModelState {
    pub owner: Option<usize>,
    pub tensors: u8,
    pub archived: bool,
}

/// A player; player 0 is the human, the others are bots.
#[derive(Debug, Clone, PartialEq, Eq)]
pub struct Player {
    pub id: usize,
    pub name: String,
    pub is_human: bool,
    pub credits: i32,
    pub position: usize,
    pub cooldown_turns: u8,
    pub bypass_tokens: u8,
    pub bankrupt: bool,
}

/// What the game is waiting for.
#[derive(Debug, Clone, Copy, PartialEq, Eq, Structural)]
pub enum Phase {
    AwaitRoll,
    OfferPurchase { tile: usize },
    Auction,
    Manage,
    GameOver,
    ChooseCard,
}

/// A running auction for a model.
#[derive(Debug, Clone, PartialEq, Eq)]
pub struct AuctionState {
    pub tile: usize,
    pub active: Vec<usize>,
    pub bidder_index: usize,
    pub high_bid: i32,
    pub high_bidder: Option<usize>,
}

/// One entry of the event log.
#[derive(Debug, Clone, PartialEq, Eq)]
pub enum GameLog {
    Rolled { player: usize, first: u8, second: u8 },
    Moved { player: usize, position: usize },
    Bought { player: usize, tile: usize, price: i32 },
    UsageFee { from: usize, to: usize, amount: i32 },
    Credits { player: usize, amount: i32 },
    ComputeBill { player: usize, amount: i32 },
    Drew { player: usize, card: Card },
    CooldownStarted { player: usize },
    TensorAllocated { player: usize, tile: usize, tensors: u8 },
    ReleasedTensor { player: usize, tile: usize, tensors: u8 },
    Archived { player: usize, tile: usize },
    Restored { player: usize, tile: usize },
    Bankrupt { player: usize, creditor: Option<usize> },
    Won { players: Vec<usize> },
}

/// Why an action or a configuration was refused.
#[derive(Debug, Clone, PartialEq, Eq)]
pub enum GameError {
    InvalidConfig(String),
    InvalidPhase,
    InvalidAction(String),
    NotOwner,
    InsufficientFunds,
    UnknownModel,
}

/// Everything a player (or a bot) can ask the game to do.
#[derive(Debug, Clone, Copy, PartialEq, Eq, Structural)]
pub enum Action {
    Roll,
    PayCooldown,
    UseBypass,
    Buy,
    Decline,
    AuctionBid(i32),
    AuctionPass,
    AllocateTensor(usize),
    ReleaseTensor(usize),
    Archive(usize),
    Restore(usize),
    EndTurn,
    PickRoll(u8),
    PickCard(u8),
}

/// A whole game, as it is saved.
#[derive(Debug, Clone, PartialEq, Eq)]
pub struct Game {
    pub config: GameConfig,
    pub players: Vec<Player>,
    pub models: BTreeMap<usize, ModelState>,
    pub deck: Vec<Card>,
    pub deck_index: usize,
    pub rng: SimpleRng,
    pub current_player: usize,
    pub round: u16,
    pub phase: Phase,
    pub auction: Option<AuctionState>,
    pub pending_bank_auctions: Vec<usize>,
    pub last_roll: Option<(u8, u8)>,
    pub doubles_streak: u8,
    pub extra_turn: bool,
    pub logs: Vec<GameLog>,
    pub winners: Vec<usize>,
}

/// A model nobody owns, without tensors, not archived.
pub open spec fn unowned_model() -> ModelState {
    ModelState { owner: None, tensors: 0, archived: false }
}

impl Default for ModelState {
    fn default() -> (state: Self)
        ensures
            state == unowned_model(),
    {
        ModelState { owner: None, tensors: 0, archived: false }
    }
}

/// Usage fee multiplier for a model with 1 to 4 tensors (index 0 is the bare model).
pub open spec fn tensor_multiplier(tensors: int) -> int {
    if tensors == 0 {
        1
    } else if tensors == 1 {
        5
    } else if tensors == 2 {
        15
    } else if tensors == 3 {
        45
    } else {
        80
    }
}

/// Whether `player` owns the `k`-th model of `family`.
pub open spec fn owns_family_tile(
    models: Map<usize, ModelState>,
    player: int,
    family: ModelFamily,
    k: int,
) -> bool {
    models[family_tile(family, k) as usize].owner == Some(player as usize)
}

/// How many of the first `k` models of `family` the player owns.
pub open spec fn owned_among(models: Map<usize, ModelState>, player: int, family: ModelFamily, k: int) -> int
    decreases k,
{
    if k <= 0 {
        0
    } else {
        owned_among(models, player, family, k - 1) + if owns_family_tile(models, player, family, k - 1) {
            1int
        } else {
            0int
        }
    }
}

/// How many models of `family` the player owns.
pub open spec fn owned_in_family(models: Map<usize, ModelState>, player: int, family: ModelFamily) -> int {
    owned_among(models, player, family, 4)
}

/// The usage fee a visitor pays on a model tile.
pub open spec fn usage_fee(models: Map<usize, ModelState>, tile: int) -> int {
    let state = models[tile as usize];
    let base = price_of(parameters_of_tile(tile)) / 10;
    match state.owner {
        None => 0,
        Some(owner) => if state.archived {
            0
        } else if state.tensors == 0 {
            base * if owned_in_family(models, owner as int, family_of_tile(tile)) >= 3 {
                2int
            } else {
                1int
            }
        } else {
            base * tensor_multiplier(state.tensors as int)
        },
    }
}

/// `b` is `a` with at most the credits of player `p` changed.
pub open spec fn credits_changed_only(a: Seq<Player>, b: Seq<Player>, p: int) -> bool {
    &&& a.len() == b.len()
    &&& 0 <= p < a.len()
    &&& forall|i: int| 0 <= i < a.len() && i != p ==> #[trigger] b[i] == a[i]
    &&& b[p] == Player { credits: b[p].credits, ..a[p] }
}

/// The fields that money handling leaves alone.
pub open spec fn same_turn(a: Game, b: Game) -> bool {
    &&& a.config == b.config
    &&& a.deck == b.deck
    &&& a.deck_index == b.deck_index
    &&& a.rng == b.rng
    &&& a.current_player == b.current_player
    &&& a.round == b.round
    &&& a.last_roll == b.last_roll
    &&& a.doubles_streak == b.doubles_streak
    &&& a.extra_turn == b.extra_turn
}

/// The players are the same people at the same places; only credits and
/// bankruptcy may differ.
pub open spec fn same_people(a: Game, b: Game) -> bool {
    &&& a.players@.len() == b.players@.len()
    &&& forall|i: int| 0 <= i < a.players@.len() ==> {
        let p = #[trigger] a.players@[i];
        let q = b.players@[i];
        &&& p.id == q.id
        &&& p.name == q.name
        &&& p.is_human == q.is_human
        &&& p.position == q.position
        &&& p.cooldown_turns == q.cooldown_turns
        &&& p.bypass_tokens == q.bypass_tokens
    }
}

/// The same players, in the same seats, under the same names.
pub open spec fn same_roster(a: Game, b: Game) -> bool {
    &&& a.players@.len() == b.players@.len()
    &&& forall|i: int| 0 <= i < a.players@.len() ==> {
        let p = #[trigger] a.players@[i];
        let q = b.players@[i];
        &&& p.id == q.id
        &&& p.name == q.name
        &&& p.is_human == q.is_human
    }
}

/// Keeping the roster is transitive.
pub proof fn lemma_roster_chain(a: Game, b: Game, c: Game)
    requires
        same_roster(a, b),
        same_roster(b, c),
    ensures
        same_roster(a, c),
{
    assert forall|i: int| 0 <= i < a.players@.len() implies {
        let p = #[trigger] a.players@[i];
        let q = c.players@[i];
        &&& p.id == q.id
        &&& p.name == q.name
        &&& p.is_human == q.is_human
    } by {
        let _ = b.players@[i];
    }
}

/// The turn bookkeeping that moving around the board leaves alone.
pub open spec fn same_clock(a: Game, b: Game) -> bool {
    &&& a.config == b.config
    &&& a.deck == b.deck
    &&& a.rng == b.rng
    &&& a.current_player == b.current_player
    &&& a.round == b.round
    &&& a.last_roll == b.last_roll
    &&& a.doubles_streak == b.doubles_streak
}

/// The log of `b` is the log of `a` with entries appended.
pub open spec fn log_extends(a: Game, b: Game) -> bool {
    &&& a.logs@.len() <= b.logs@.len()
    &&& forall|k: int| 0 <= k < a.logs@.len() ==> #[trigger] b.logs@[k] == a.logs@[k]
}

/// Every credit balance of `b` is at most `gain` above the bound that held for `a`.
pub open spec fn credit_growth(a: Game, b: Game, gain: int) -> bool {
    forall|bound: int| #[trigger] a.credits_at_most(bound) ==> b.credits_at_most(bound + gain)
}

/// Sum of `f` over the tiles of the first `n` roster models.
pub open spec fn roster_sum(f: spec_fn(int) -> int, n: int) -> int
    decreases n,
{
    if n <= 0 {
        0
    } else {
        roster_sum(f, n - 1) + f(tile_of_index(n - 1))
    }
}

/// Credit growth composes.
pub proof fn lemma_growth_chain(a: Game, b: Game, c: Game, g1: int, g2: int)
    requires
        credit_growth(a, b, g1),
        credit_growth(b, c, g2),
    ensures
        credit_growth(a, c, g1 + g2),
{
    assert forall|bound: int| #[trigger] a.credits_at_most(bound) implies c.credits_at_most(bound + g1 + g2) by {
        assert(b.credits_at_most(bound + g1));
    }
}

/// A bound on credit growth can be loosened.
pub proof fn lemma_growth_weaken(a: Game, b: Game, g: int, h: int)
    requires
        credit_growth(a, b, g),
        g <= h,
    ensures
        credit_growth(a, b, h),
{
    assert forall|bound: int| #[trigger] a.credits_at_most(bound) implies b.credits_at_most(bound + h) by {
        assert(b.credits_at_most(bound + g));
    }
}

/// Balances that each grew by at most `g` grow by at most `g`.
pub proof fn lemma_growth_by(a: Game, b: Game, g: int)
    requires
        a.players@.len() == b.players@.len(),
        forall|i: int| 0 <= i < a.players@.len() ==> (#[trigger] b.players@[i]).credits <= a.players@[i].credits + g,
    ensures
        credit_growth(a, b, g),
{
    assert forall|bound: int| #[trigger] a.credits_at_most(bound) implies b.credits_at_most(bound + g) by {
        assert forall|i: int| 0 <= i < b.players@.len() implies #[trigger] b.players@[i].credits <= bound + g by {
            assert(a.players@[i].credits <= bound);
        }
    }
}

/// Unchanged balances grow by nothing.
pub proof fn lemma_growth_none(a: Game, b: Game)
    requires
        a.players@.len() == b.players@.len(),
        forall|i: int| 0 <= i < a.players@.len() ==> (#[trigger] b.players@[i]).credits == a.players@[i].credits,
    ensures
        credit_growth(a, b, 0),
{
    assert forall|bound: int| #[trigger] a.credits_at_most(bound) implies b.credits_at_most(bound + 0) by {
        assert forall|i: int| 0 <= i < b.players@.len() implies #[trigger] b.players@[i].credits <= bound + 0 by {
            assert(a.players@[i].credits <= bound);
        }
    }
}

/// What one model adds to a player's net worth: its price (half if archived)
/// plus half the cost of each tensor.
pub open spec fn holding_worth(models: Map<usize, ModelState>, player: int, tile: int) -> int {
    let state = models[tile as usize];
    if state.owner == Some(player as usize) {
        (if state.archived {
            price_of(parameters_of_tile(tile)) / 2
        } else {
            price_of(parameters_of_tile(tile))
        }) + state.tensors * (tensor_cost_of(family_of_tile(tile)) / 2)
    } else {
        0
    }
}

/// What all of a player's models add to their net worth.
pub open spec fn holdings_worth(models: Map<usize, ModelState>, player: int) -> int {
    roster_sum(|t: int| holding_worth(models, player, t), MODEL_COUNT as int)
}

/// Credits a player can still raise from one model: half the cost of each
/// tensor, and the archive value if the model is not archived yet.
pub open spec fn liquid_value_of(models: Map<usize, ModelState>, player: int, tile: int) -> int {
    let state = models[tile as usize];
    if state.owner == Some(player as usize) {
        state.tensors * (tensor_cost_of(family_of_tile(tile)) / 2) + if state.archived {
            0
        } else {
            price_of(parameters_of_tile(tile)) / 2
        }
    } else {
        0
    }
}

/// Credits a player can still raise by releasing tensors and archiving models.
pub open spec fn liquid_value(models: Map<usize, ModelState>, player: int) -> int {
    roster_sum(|t: int| liquid_value_of(models, player, t), MODEL_COUNT as int)
}

/// Whether a log entry announces exactly these winners.
pub open spec fn announces(entry: GameLog, ids: Seq<usize>) -> bool {
    entry matches GameLog::Won { players } && players@ == ids
}

/// The roster tiles among the first `n` that a player owns, in roster order.
pub open spec fn owned_tiles_among(models: Map<usize, ModelState>, player: int, n: int) -> Seq<usize>
    decreases n,
{
    if n <= 0 {
        Seq::empty()
    } else if models[tile_of_index(n - 1) as usize].owner == Some(player as usize) {
        owned_tiles_among(models, player, n - 1).push(tile_of_index(n - 1) as usize)
    } else {
        owned_tiles_among(models, player, n - 1)
    }
}

/// Ids of the players among the first `k` who are not bankrupt, in order.
pub open spec fn alive_among(players: Seq<Player>, k: int) -> Seq<usize>
    decreases k,
{
    if k <= 0 {
        Seq::empty()
    } else if players[k - 1].bankrupt {
        alive_among(players, k - 1)
    } else {
        alive_among(players, k - 1).push(players[k - 1].id)
    }
}

/// Ids of the players who are not bankrupt, in order.
pub open spec fn alive_ids(players: Seq<Player>) -> Seq<usize> {
    alive_among(players, players.len() as int)
}

impl Game {
    /// Credits of a player.
    pub open spec fn credits_of(&self, player: int) -> int {
        self.players@[player].credits as int
    }

    /// No player holds more than `bound` credits.
    pub open spec fn credits_at_most(&self, bound: int) -> bool {
        forall|i: int| 0 <= i < self.players@.len() ==> #[trigger] self.players@[i].credits <= bound
    }

    /// Net worth of a player: credits plus models and tensors at their value.
    pub open spec fn worth_of(&self, player: int) -> int {
        self.credits_of(player) + holdings_worth(self.models@, player)
    }

    /// The structural invariant that every operation keeps: the one below,
    /// and an auction phase always has an auction with bidders left.
    pub open spec fn wf(&self) -> bool {
        &&& self.core_wf()
        &&& (self.phase == Phase::Auction ==> (self.auction matches Some(a) && a.active@.len() > 0))
    }

    /// The structural invariant, which also holds in the middle of an auction
    /// whose last bidder has just dropped out.
    pub open spec fn core_wf(&self) -> bool {
        let n = self.players@.len();
        &&& 1 <= n <= 4
        &&& forall|i: int| 0 <= i < n ==> (#[trigger] self.players@[i]).id == i
        &&& forall|i: int| 0 <= i < n ==> (#[trigger] self.players@[i]).position < BOARD_SIZE
        &&& forall|i: int| 0 <= i < n ==> (#[trigger] self.players@[i]).credits >= 0
        &&& forall|t: usize| #[trigger] self.models@.contains_key(t) <==> is_model_tile(t as int)
        &&& forall|t: usize| #[trigger] self.models@.contains_key(t) ==> self.models@[t].tensors <= 4
        &&& forall|t: usize| #[trigger] self.models@.contains_key(t) && self.models@[t].archived ==> self.models@[t].tensors == 0
        &&& forall|t: usize| #[trigger] self.models@.contains_key(t) && self.models@[t].owner is None ==> self.models@[t]
            == unowned_model()
        &&& forall|t: usize| #[trigger] self.models@.contains_key(t) ==> match self.models@[t].owner {
            Some(o) => o < n,
            None => true,
        }
        &&& self.deck@.len() > 0
        &&& self.deck_index < self.deck@.len()
        &&& self.current_player < n
        &&& 1 <= self.round <= self.config.round_limit
        &&& (self.phase matches Phase::OfferPurchase { tile } ==> is_model_tile(tile as int))
        &&& (self.auction matches Some(a) ==> self.auction_wf(a))
        &&& (self.phase == Phase::Auction ==> self.auction is Some)
        &&& forall|k: int| 0 <= k < self.pending_bank_auctions@.len() ==> is_model_tile(
            #[trigger] self.pending_bank_auctions@[k] as int,
        )
        &&& forall|k: int| 0 <= k < self.winners@.len() ==> #[trigger] self.winners@[k] < n
        &&& (self.phase == Phase::AwaitRoll ==> self.doubles_streak < 3)
        &&& (self.extra_turn ==> self.doubles_streak < 3)
    }

    /// No bid stands in a running auction (or none is running).
    pub open spec fn no_bids(&self) -> bool {
        match self.auction {
            Some(a) => a.high_bidder is None,
            None => true,
        }
    }

    /// Invariant of a running auction.
    pub open spec fn auction_wf(&self, a: AuctionState) -> bool {
        let n = self.players@.len();
        &&& is_model_tile(a.tile as int)
        &&& forall|k: int| 0 <= k < a.active@.len() ==> #[trigger] a.active@[k] < n
        &&& (a.active@.len() > 0 ==> a.bidder_index < a.active@.len())
        &&& forall|j: int, k: int| 0 <= j < k < a.active@.len() ==> #[trigger] a.active@[j] < #[trigger] a.active@[k]
        &&& (a.bidder_index < a.active@.len() && !(a.active@.len() == 1 && a.high_bidder == Some(a.active@[0]))
            ==> a.high_bidder != Some(a.active@[a.bidder_index as int]))
        &&& (a.high_bidder matches Some(h) ==> {
            &&& a.active@.len() == 0 || a.active@.contains(h)
            &&& h < n
            &&& 0 <= a.high_bid <= self.players@[h as int].credits
            &&& self.phase == Phase::Auction
        })
        &&& (a.high_bidder is None ==> a.high_bid == 0)
    }
}

impl AuctionState {
    /// The player whose turn it is to bid, if anyone is left.
    pub fn current_bidder(&self) -> (bidder: Option<usize>)
        ensures
            bidder == if self.bidder_index < self.active@.len() {
                Some(self.active@[self.bidder_index as int])
            } else {
                None
            },
    {
        if self.bidder_index < self.active.len() {
            Some(self.active[self.bidder_index])
        } else {
            None
        }
    }
}

} // verus!
