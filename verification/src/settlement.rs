//! Money handling: credits, charges, raising funds, bankruptcy and game end.
use vstd::prelude::*;
use crate::catalog::{
    family_of_tile, is_model_tile, model_at, parameters_of_tile, price_of, tensor_cost_of,
    tile_of_index, COOLDOWN_POSITION, MODEL_COUNT,
};
use crate::state::{
    roster_sum, alive_among, alive_ids, announces, credit_growth, liquid_value, liquid_value_of, log_extends,
    owned_tiles_among, same_people, same_turn,
    credits_changed_only, unowned_model, Game, GameLog, ModelState, Phase, Player,
};
use crate::sums::{lemma_roster_sum_nonneg, lemma_roster_sum_update, lemma_roster_tiles};

verus! {

broadcast use vstd::laws_cmp::group_laws_cmp;

impl Game {
    /// The ownership record of a model tile.
    pub fn read_model(&self, tile: usize) -> (state: ModelState)
        requires
            self.models@.contains_key(tile),
        ensures
            state == self.models@[tile],
    {
        *self.models.get(&tile).unwrap()
    }

    /// Replaces the ownership record of a model tile.
    pub fn write_model(&mut self, tile: usize, state: ModelState)
        requires
            old(self).wf(),
            is_model_tile(tile as int),
            state.tensors <= 4,
            state.owner matches Some(o) ==> o < old(self).players@.len(),
            state.archived ==> state.tensors == 0,
            state.owner is None ==> state == unowned_model(),
        ensures
            final(self).wf(),
            final(self).models@ == old(self).models@.insert(tile, state),
            final(self).players == old(self).players,
            final(self).logs == old(self).logs,
            final(self).phase == old(self).phase,
            final(self).auction == old(self).auction,
            final(self).pending_bank_auctions == old(self).pending_bank_auctions,
            final(self).winners == old(self).winners,
            same_turn(*old(self), *final(self)),
    {
        self.models.insert(tile, state);
    }

    /// Pays `amount` from the bank to `player`, and logs it.
    pub fn add_credits(&mut self, player: usize, amount: i32)
        requires
            old(self).wf(),
            player < old(self).players@.len(),
            0 <= amount,
            old(self).credits_of(player as int) + amount <= i32::MAX,
        ensures
            credits_changed_only(old(self).players@, final(self).players@, player as int),
            final(self).credits_of(player as int) == old(self).credits_of(player as int) + amount,
            final(self).logs@ == old(self).logs@.push(GameLog::Credits { player, amount }),
            final(self).models == old(self).models,
            final(self).phase == old(self).phase,
            final(self).auction == old(self).auction,
            final(self).pending_bank_auctions == old(self).pending_bank_auctions,
            final(self).winners == old(self).winners,
            same_turn(*old(self), *final(self)),
            final(self).wf(),
    {
        self.players[player].credits = self.players[player].credits + amount;
        self.logs.push(GameLog::Credits { player, amount });
    }

    /// Sends a player to the cooldown space for their first cooldown turn.
    pub fn send_to_cooldown(&mut self, player: usize)
        requires
            old(self).wf(),
            player < old(self).players@.len(),
        ensures
            final(self).players@.len() == old(self).players@.len(),
            final(self).players@[player as int] == (crate::state::Player {
                position: COOLDOWN_POSITION,
                cooldown_turns: 1,
                ..old(self).players@[player as int]
            }),
            forall|i: int| 0 <= i < old(self).players@.len() && i != player ==>
                #[trigger] final(self).players@[i] == old(self).players@[i],
            final(self).logs@ == old(self).logs@.push(GameLog::CooldownStarted { player }),
            final(self).models == old(self).models,
            final(self).phase == old(self).phase,
            final(self).auction == old(self).auction,
            final(self).pending_bank_auctions == old(self).pending_bank_auctions,
            final(self).winners == old(self).winners,
            same_turn(*old(self), *final(self)),
            final(self).wf(),
    {
        self.players[player].position = COOLDOWN_POSITION;
        self.players[player].cooldown_turns = 1;
        self.logs.push(GameLog::CooldownStarted { player });
    }
}

} // verus!

verus! {

/// Who takes over a bankrupt player's models: the creditor, unless there is
/// none, it is the bankrupt player, or it is bankrupt itself.
pub open spec fn heir(g: Game, player: int, creditor: Option<usize>) -> Option<usize> {
    match creditor {
        Some(c) => if c as int != player && !g.players@[c as int].bankrupt {
            Some(c)
        } else {
            None
        },
        None => None,
    }
}

/// What bankruptcy does to the record of a model of the bankrupt player.
pub open spec fn inherited(state: ModelState, heir: Option<usize>) -> ModelState {
    ModelState {
        owner: heir,
        tensors: 0,
        archived: if heir is None { false } else { state.archived },
    }
}

/// The log of game `b` is `before` with the bankruptcy of `player` added, and,
/// when only one player is left, the announcement of their win.
pub open spec fn bankruptcy_logged(before: Seq<GameLog>, b: Game, player: usize, creditor: Option<usize>) -> bool {
    if alive_ids(b.players@).len() != 1 {
        b.logs@ == before.push(GameLog::Bankrupt { player, creditor })
    } else {
        &&& b.logs@.len() == before.len() + 2
        &&& b.logs@.subrange(0, before.len() + 1int) == before.push(GameLog::Bankrupt { player, creditor })
        &&& announces(b.logs@.last(), b.winners@)
    }
}

impl Game {
    /// Ends the game when exactly one player is left standing.
    pub fn check_last_survivor(&mut self)
        requires
            old(self).wf(),
            old(self).no_bids(),
        ensures
            final(self).wf(),
            final(self).no_bids(),
            final(self).players == old(self).players,
            final(self).models == old(self).models,
            final(self).auction == old(self).auction,
            final(self).pending_bank_auctions == old(self).pending_bank_auctions,
            same_turn(*old(self), *final(self)),
            alive_ids(old(self).players@).len() == 1 ==> {
                &&& final(self).winners@ == alive_ids(old(self).players@)
                &&& final(self).phase == Phase::GameOver
                &&& final(self).logs@.len() == old(self).logs@.len() + 1
                &&& announces(final(self).logs@.last(), final(self).winners@)
            },
            alive_ids(old(self).players@).len() != 1 ==> *final(self) == *old(self),
            log_extends(*old(self), *final(self)),
    {
        let n = self.players.len();
        let mut alive: Vec<usize> = Vec::new();
        let mut i: usize = 0;
        while i < n
            invariant
                n == self.players@.len(),
                self.wf(),
                i <= n,
                alive@ == alive_among(self.players@, i as int),
                forall|k: int| 0 <= k < alive@.len() ==> #[trigger] alive@[k] < n,
            decreases n - i,
        {
            if !self.players[i].bankrupt {
                alive.push(self.players[i].id);
            }
            i = i + 1;
        }
        if alive.len() == 1 {
            let announced = alive.clone();
            self.winners = alive;
            self.phase = Phase::GameOver;
            self.logs.push(GameLog::Won { players: announced });
        }
    }
}

} // verus!

verus! {

impl Game {
    /// Declares a player bankrupt: their credits drop to zero, their models go
    /// to the creditor (or back to the bank, queued for auction), and the game
    /// ends if only one player is left.
    pub fn bankrupt(&mut self, player: usize, creditor: Option<usize>)
        requires
            old(self).wf(),
            old(self).no_bids(),
            player < old(self).players@.len(),
            creditor matches Some(c) ==> c < old(self).players@.len(),
        ensures
            final(self).wf(),
            final(self).no_bids(),
            same_turn(*old(self), *final(self)),
            same_people(*old(self), *final(self)),
            final(self).players@[player as int].bankrupt,
            final(self).credits_of(player as int) == 0,
            forall|i: int| 0 <= i < old(self).players@.len() && i != player ==>
                #[trigger] final(self).players@[i] == old(self).players@[i],
            forall|t: usize| #[trigger] is_model_tile(t as int) ==> final(self).models@[t] == if old(self).models@[t].owner == Some(player) {
                inherited(old(self).models@[t], heir(*old(self), player as int, creditor))
            } else {
                old(self).models@[t]
            },
            final(self).pending_bank_auctions@ == if heir(*old(self), player as int, creditor) is None {
                old(self).pending_bank_auctions@ + owned_tiles_among(
                    old(self).models@,
                    player as int,
                    MODEL_COUNT as int,
                )
            } else {
                old(self).pending_bank_auctions@
            },
            final(self).auction == old(self).auction,
            log_extends(*old(self), *final(self)),
            final(self).logs@.len() > old(self).logs@.len(),
            final(self).logs@[old(self).logs@.len() as int] == (GameLog::Bankrupt { player, creditor }),
            alive_ids(final(self).players@).len() == 1 ==> {
                &&& final(self).winners@ == alive_ids(final(self).players@)
                &&& final(self).phase == Phase::GameOver
            },
            alive_ids(final(self).players@).len() != 1 ==> {
                &&& final(self).winners == old(self).winners
                &&& final(self).phase == old(self).phase
            },
            bankruptcy_logged(old(self).logs@, *final(self), player, creditor),
    {
        let ghost start = *old(self);
        self.players[player].bankrupt = true;
        self.players[player].credits = 0;
        let heir_id: Option<usize> = match creditor {
            Some(id) => if !self.players[id].bankrupt {
                Some(id)
            } else {
                None
            },
            None => None,
        };
        assert(heir_id == heir(start, player as int, creditor));
        proof { lemma_roster_tiles(); }
        let mut i: usize = 0;
        while i < MODEL_COUNT
            invariant
                i <= MODEL_COUNT,
                self.wf(),
                self.no_bids(),
                heir_id == heir(start, player as int, creditor),
                heir_id matches Some(h) ==> h < self.players@.len(),
                same_turn(start, *self),
                same_people(start, *self),
                self.players@[player as int].bankrupt,
                self.credits_of(player as int) == 0,
                forall|k: int| 0 <= k < start.players@.len() && k != player ==>
                    #[trigger] self.players@[k] == start.players@[k],
                forall|t: usize| #[trigger] is_model_tile(t as int) ==> self.models@[t] == if start.models@[t].owner
                    == Some(player) && crate::catalog::index_of_tile(t as int) < i {
                    inherited(start.models@[t], heir_id)
                } else {
                    start.models@[t]
                },
                self.pending_bank_auctions@ == if heir_id is None {
                    start.pending_bank_auctions@ + owned_tiles_among(start.models@, player as int, i as int)
                } else {
                    start.pending_bank_auctions@
                },
                self.auction == start.auction,
                self.logs == start.logs,
                self.phase == start.phase,
                self.winners == start.winners,
            decreases MODEL_COUNT - i,
        {
            let definition = model_at(i);
            let tile = definition.tile;
            let state = self.read_model(tile);
            assert(tile as int == tile_of_index(i as int));
            assert(is_model_tile(tile as int));
            assert(state == start.models@[tile]);
            let owned = match state.owner {
                Some(o) => o == player,
                None => false,
            };
            assert(owned == (start.models@[tile_of_index(i as int) as usize].owner == Some(player)));
            if owned {
                let archived = match heir_id {
                    Some(_) => state.archived,
                    None => false,
                };
                self.write_model(tile, ModelState { owner: heir_id, tensors: 0, archived });
                if heir_id.is_none() {
                    self.pending_bank_auctions.push(tile);
                }
            }
            proof {
                if heir_id is None {
                    if owned {
                        assert(self.pending_bank_auctions@ =~= start.pending_bank_auctions@ + owned_tiles_among(
                            start.models@,
                            player as int,
                            i + 1,
                        ));
                    } else {
                        assert(owned_tiles_among(start.models@, player as int, i + 1) == owned_tiles_among(
                            start.models@,
                            player as int,
                            i as int,
                        ));
                    }
                }
            }
            i = i + 1;
        }
        self.logs.push(GameLog::Bankrupt { player, creditor });
        let ghost logged = *self;
        self.check_last_survivor();
        proof {
            if alive_ids(self.players@).len() == 1 {
                assert(self.logs@.subrange(0, logged.logs@.len() as int) =~= logged.logs@);
            }
        }
    }
}

} // verus!

verus! {


/// The model a player releases a tensor from first, among the first `k`
/// roster models: the one with the most tensors, the later one among equals.
pub open spec fn release_pick(models: Map<usize, ModelState>, player: int, k: int) -> Option<usize>
    decreases k,
{
    if k <= 0 {
        None
    } else {
        let prev = release_pick(models, player, k - 1);
        let t = tile_of_index(k - 1) as usize;
        let st = models[t];
        if st.owner == Some(player as usize) && st.tensors > 0 && (prev is None || st.tensors
            >= models[prev->0].tensors) {
            Some(t)
        } else {
            prev
        }
    }
}

/// The model a player archives first, among the first `k` roster models: an
/// unarchived one without tensors with the lowest usage fee, the earlier one among equals.
pub open spec fn archive_pick(models: Map<usize, ModelState>, player: int, k: int) -> Option<usize>
    decreases k,
{
    if k <= 0 {
        None
    } else {
        let prev = archive_pick(models, player, k - 1);
        let t = tile_of_index(k - 1) as usize;
        let st = models[t];
        if st.owner == Some(player as usize) && !st.archived && st.tensors == 0 && (prev is None
            || price_of(parameters_of_tile(t as int)) / 10 < price_of(parameters_of_tile(prev->0 as int)) / 10) {
            Some(t)
        } else {
            prev
        }
    }
}

/// One sale to raise credits: a tensor from the most-tensored model, or else
/// the archiving of the cheapest unarchived model.
pub open spec fn sold(models: Map<usize, ModelState>, credits: int, player: int) -> (Map<usize, ModelState>, int) {
    match release_pick(models, player, 16) {
        Some(t) => (
            models.insert(t, one_tensor_less(models[t])),
            credits + tensor_cost_of(family_of_tile(t as int)) / 2,
        ),
        None => match archive_pick(models, player, 16) {
            Some(t) => (models.insert(t, archived_state(models[t])), credits + price_of(parameters_of_tile(t as int)) / 2),
            None => (models, credits),
        },
    }
}

/// Sales, at most `fuel` of them, until the player holds `target` credits or
/// has nothing left to sell.
pub open spec fn raised(models: Map<usize, ModelState>, credits: int, player: int, target: int, fuel: nat) -> (
    Map<usize, ModelState>,
    int,
)
    decreases fuel,
{
    if fuel == 0 || credits >= target || (release_pick(models, player, 16) is None && archive_pick(
        models,
        player,
        16,
    ) is None) {
        (models, credits)
    } else {
        let next = sold(models, credits, player);
        raised(next.0, next.1, player, target, (fuel - 1) as nat)
    }
}

/// Two model tables that agree on every model `player` owns in either.
pub open spec fn same_holdings(m1: Map<usize, ModelState>, m2: Map<usize, ModelState>, player: int) -> bool {
    forall|t: usize| #[trigger] is_model_tile(t as int) && (m1[t].owner == Some(player as usize) || m2[t].owner
        == Some(player as usize)) ==> m1[t] == m2[t]
}

/// What a player picks to sell depends on their own models alone, and is one
/// of them.
proof fn lemma_picks_frame(m1: Map<usize, ModelState>, m2: Map<usize, ModelState>, player: int, k: int)
    requires
        same_holdings(m1, m2, player),
        0 <= k <= 16,
    ensures
        release_pick(m1, player, k) == release_pick(m2, player, k),
        archive_pick(m1, player, k) == archive_pick(m2, player, k),
        release_pick(m1, player, k) matches Some(t) ==> is_model_tile(t as int) && m1[t].owner == Some(
            player as usize,
        ),
        archive_pick(m1, player, k) matches Some(t) ==> is_model_tile(t as int) && m1[t].owner == Some(
            player as usize,
        ),
    decreases k,
{
    if k > 0 {
        lemma_picks_frame(m1, m2, player, k - 1);
        lemma_roster_tiles();
        let t = tile_of_index(k - 1) as usize;
        assert(is_model_tile(t as int));
    }
}

/// Raising credits depends on the seller's own models alone, changes no
/// model's owner, and leaves the models of others as they were.
pub(crate) proof fn lemma_raised_frame(
    m1: Map<usize, ModelState>,
    m2: Map<usize, ModelState>,
    credits: int,
    player: int,
    target: int,
    fuel: nat,
)
    requires
        same_holdings(m1, m2, player),
    ensures
        raised(m1, credits, player, target, fuel).1 == raised(m2, credits, player, target, fuel).1,
        same_holdings(raised(m1, credits, player, target, fuel).0, raised(m2, credits, player, target, fuel).0, player),
        forall|t: usize| #[trigger] is_model_tile(t as int) ==> raised(m1, credits, player, target, fuel).0[t].owner
            == m1[t].owner,
        forall|t: usize| #[trigger] is_model_tile(t as int) && m1[t].owner != Some(player as usize) ==> raised(
            m1,
            credits,
            player,
            target,
            fuel,
        ).0[t] == m1[t],
    decreases fuel,
{
    lemma_picks_frame(m1, m2, player, 16);
    if !(fuel == 0 || credits >= target || (release_pick(m1, player, 16) is None && archive_pick(m1, player, 16) is None)) {
        let n1 = sold(m1, credits, player);
        let n2 = sold(m2, credits, player);
        assert(same_holdings(n1.0, n2.0, player));
        lemma_raised_frame(n1.0, n2.0, n1.1, player, target, (fuel - 1) as nat);
    }
}

/// What a player still has to sell on one model: its tensors, and the model
/// itself while it is not archived.
pub open spec fn units_of(models: Map<usize, ModelState>, player: int, t: int) -> int {
    let st = models[t as usize];
    if st.owner == Some(player as usize) {
        st.tensors + if st.archived { 0int } else { 1int }
    } else {
        0
    }
}

/// Everything a player still has to sell.
pub open spec fn units(models: Map<usize, ModelState>, player: int) -> int {
    roster_sum(|t: int| units_of(models, player, t), MODEL_COUNT as int)
}


/// Rewriting one model record changes what a player has to sell by the
/// difference on that model.
proof fn lemma_units_update(models: Map<usize, ModelState>, player: int, tile: usize, state: ModelState)
    requires
        is_model_tile(tile as int),
    ensures
        units(models.insert(tile, state), player) == units(models, player) + units_of(
            models.insert(tile, state),
            player,
            tile as int,
        ) - units_of(models, player, tile as int),
{
    lemma_roster_tiles();
    let updated = models.insert(tile, state);
    let f = |t: int| units_of(models, player, t);
    let g = |t: int| units_of(updated, player, t);
    let k = crate::catalog::index_of_tile(tile as int);
    assert forall|i: int| 0 <= i < 16 && i != k implies f(#[trigger] tile_of_index(i)) == g(tile_of_index(i)) by {
        assert(tile_of_index(i) != tile_of_index(k));
        assert(updated[tile_of_index(i) as usize] == models[tile_of_index(i) as usize]);
    }
    lemma_roster_sum_update(f, g, k, 16);
}

/// In a well-formed game every model tile holds at most four tensors.
proof fn lemma_wf_tensors(g: Game)
    requires
        g.wf(),
    ensures
        forall|t: usize| #[trigger] is_model_tile(t as int) ==> g.models@[t].tensors <= 4,
{
    assert forall|t: usize| #[trigger] is_model_tile(t as int) implies g.models@[t].tensors <= 4 by {
        assert(g.models@.contains_key(t));
    }
}

/// What a player has to sell is between 0 and 80, and at least what one model holds.
proof fn lemma_units_range(models: Map<usize, ModelState>, player: int)
    requires
        forall|t: usize| #[trigger] is_model_tile(t as int) ==> models[t].tensors <= 4,
    ensures
        0 <= units(models, player) <= 80,
        forall|k: int| 0 <= k < 16 ==> units(models, player) >= #[trigger] units_of(models, player, tile_of_index(k)),
{
    lemma_roster_tiles();
    let f = |t: int| units_of(models, player, t);
    assert forall|i: int| 0 <= i < 16 implies 0 <= f(#[trigger] tile_of_index(i)) <= 5 by {
        assert(is_model_tile(tile_of_index(i)));
        assert(models[tile_of_index(i) as usize].tensors <= 4);
    }
    lemma_roster_sum_nonneg(f, 16);
    crate::sums::lemma_roster_sum_bounded(f, 16, 5);
    assert forall|k: int| 0 <= k < 16 implies units(models, player) >= #[trigger] units_of(models, player, tile_of_index(k)) by {
        assert(f(tile_of_index(k)) == units_of(models, player, tile_of_index(k)));
    }
}

/// A record with one tensor less.
pub open spec fn one_tensor_less(state: ModelState) -> ModelState {
    ModelState { tensors: (state.tensors - 1) as u8, ..state }
}

/// A record marked archived.
pub open spec fn archived_state(state: ModelState) -> ModelState {
    ModelState { archived: true, ..state }
}

pub(crate) proof fn lemma_liquid_nonneg(models: Map<usize, ModelState>, player: int)
    ensures
        liquid_value(models, player) >= 0,
        forall|k: int| 0 <= k < 16 ==> liquid_value(models, player) >= #[trigger] liquid_value_of(
            models,
            player,
            tile_of_index(k),
        ),
{
    let f = |t: int| liquid_value_of(models, player, t);
    assert forall|i: int| 0 <= i < 16 implies f(#[trigger] tile_of_index(i)) >= 0 by {
        let t = tile_of_index(i);
        let st = models[t as usize];
        crate::catalog::lemma_price_range(parameters_of_tile(t));
        assert(st.tensors * (tensor_cost_of(family_of_tile(t)) / 2) >= 0) by (nonlinear_arith)
            requires
                st.tensors >= 0,
                tensor_cost_of(family_of_tile(t)) >= 0,
        ;
    }
    lemma_roster_sum_nonneg(f, 16);
    assert forall|k: int| 0 <= k < 16 implies liquid_value(models, player) >= #[trigger] liquid_value_of(
        models,
        player,
        tile_of_index(k),
    ) by {
        assert(f(tile_of_index(k)) == liquid_value_of(models, player, tile_of_index(k)));
    }
}

/// Rewriting one model record changes a player's liquid value by the
/// difference of that model's liquid values.
proof fn lemma_liquid_update(
    models: Map<usize, ModelState>,
    player: int,
    tile: usize,
    state: ModelState,
)
    requires
        is_model_tile(tile as int),
    ensures
        liquid_value(models.insert(tile, state), player) == liquid_value(models, player)
            + liquid_value_of(models.insert(tile, state), player, tile as int) - liquid_value_of(
            models,
            player,
            tile as int,
        ),
{
    lemma_roster_tiles();
    let updated = models.insert(tile, state);
    let f = |t: int| liquid_value_of(models, player, t);
    let g = |t: int| liquid_value_of(updated, player, t);
    let k = crate::catalog::index_of_tile(tile as int);
    assert forall|i: int| 0 <= i < 16 && i != k implies f(#[trigger] tile_of_index(i)) == g(
        tile_of_index(i),
    ) by {
        assert(tile_of_index(i) != tile_of_index(k));
        assert(updated[tile_of_index(i) as usize] == models[tile_of_index(i) as usize]);
    }
    lemma_roster_sum_update(f, g, k, 16);
}

impl Game {
    /// A model of `player` that still holds tensors, preferring the most tensors
    /// (the last one in board order among equals).
    fn tensor_tile_to_release(&self, player: usize) -> (tile: Option<usize>)
        requires
            self.wf(),
        ensures
            tile == release_pick(self.models@, player as int, 16),
            tile matches Some(t) ==> is_model_tile(t as int) && self.models@[t].owner == Some(player)
                && self.models@[t].tensors > 0,
            tile is None ==> forall|k: int| 0 <= k < 16 ==> {
                let st = #[trigger] self.models@[tile_of_index(k) as usize];
                st.owner == Some(player) ==> st.tensors == 0
            },
    {
        proof { lemma_roster_tiles(); }
        let mut best: Option<usize> = None;
        let mut most: u8 = 0;
        let mut i: usize = 0;
        while i < MODEL_COUNT
            invariant
                self.wf(),
                i <= MODEL_COUNT,
                best == release_pick(self.models@, player as int, i as int),
                best matches Some(t) ==> is_model_tile(t as int) && self.models@[t].owner == Some(player)
                    && self.models@[t].tensors > 0 && most == self.models@[t].tensors,
                best is None ==> forall|k: int| 0 <= k < i ==> {
                    let st = #[trigger] self.models@[tile_of_index(k) as usize];
                    st.owner == Some(player) ==> st.tensors == 0
                },
            decreases MODEL_COUNT - i,
        {
            let tile = model_at(i).tile;
            let state = self.read_model(tile);
            let owned = match state.owner {
                Some(o) => o == player,
                None => false,
            };
            if owned && state.tensors > 0 && (best.is_none() || state.tensors >= most) {
                best = Some(tile);
                most = state.tensors;
            }
            i = i + 1;
        }
        best
    }

    /// An unarchived model of `player` without tensors, preferring the lowest
    /// base fee (the first one in board order among equals).
    fn model_to_archive(&self, player: usize) -> (tile: Option<usize>)
        requires
            self.wf(),
        ensures
            tile == archive_pick(self.models@, player as int, 16),
            tile matches Some(t) ==> is_model_tile(t as int) && self.models@[t].owner == Some(player)
                && !self.models@[t].archived && self.models@[t].tensors == 0,
            tile is None ==> forall|k: int| 0 <= k < 16 ==> {
                let st = #[trigger] self.models@[tile_of_index(k) as usize];
                (st.owner == Some(player) && st.tensors == 0) ==> st.archived
            },
    {
        proof { lemma_roster_tiles(); }
        let mut best: Option<usize> = None;
        let mut lowest: i32 = 0;
        let mut i: usize = 0;
        while i < MODEL_COUNT
            invariant
                self.wf(),
                i <= MODEL_COUNT,
                best == archive_pick(self.models@, player as int, i as int),
                best matches Some(t) ==> is_model_tile(t as int) && self.models@[t].owner == Some(player)
                    && !self.models@[t].archived && self.models@[t].tensors == 0 && lowest == price_of(
                    parameters_of_tile(t as int),
                ) / 10,
                best is None ==> forall|k: int| 0 <= k < i ==> {
                    let st = #[trigger] self.models@[tile_of_index(k) as usize];
                    (st.owner == Some(player) && st.tensors == 0) ==> st.archived
                },
            decreases MODEL_COUNT - i,
        {
            let definition = model_at(i);
            let tile = definition.tile;
            let state = self.read_model(tile);
            let owned = match state.owner {
                Some(o) => o == player,
                None => false,
            };
            if owned && !state.archived && state.tensors == 0 {
                let fee = definition.base_fee();
                if best.is_none() || fee < lowest {
                    best = Some(tile);
                    lowest = fee;
                }
            }
            i = i + 1;
        }
        best
    }

    /// Releases one tensor of `tile` and pays `player` half its cost.
    fn release_for_credits(&mut self, player: usize, tile: usize) -> (refund: i32)
        requires
            old(self).wf(),
            player < old(self).players@.len(),
            is_model_tile(tile as int),
            old(self).models@[tile].owner == Some(player),
            old(self).models@[tile].tensors > 0,
            old(self).credits_of(player as int) < 100_000,
        ensures
            final(self).wf(),
            refund == tensor_cost_of(family_of_tile(tile as int)) / 2,
            25 <= refund <= 100,
            credits_changed_only(old(self).players@, final(self).players@, player as int),
            final(self).credits_of(player as int) == old(self).credits_of(player as int) + refund,
            final(self).models@ == old(self).models@.insert(tile, one_tensor_less(old(self).models@[tile])),
            liquid_value(final(self).models@, player as int) == liquid_value(old(self).models@, player as int) - refund,
            final(self).logs == old(self).logs,
            final(self).phase == old(self).phase,
            final(self).auction == old(self).auction,
            final(self).pending_bank_auctions == old(self).pending_bank_auctions,
            final(self).winners == old(self).winners,
            same_turn(*old(self), *final(self)),
    {
        let definition = crate::catalog::model(tile).unwrap();
        assert(old(self).models@.contains_key(tile));
        let state = self.read_model(tile);
        assert(state.tensors <= 4);
        let lowered = ModelState { tensors: state.tensors - 1, ..state };
        self.write_model(tile, lowered);
        let refund = definition.tensor_cost / 2;
        self.players[player].credits = self.players[player].credits + refund;
        proof {
            lemma_liquid_update(old(self).models@, player as int, tile, lowered);
            let c = tensor_cost_of(family_of_tile(tile as int)) / 2;
            let x = state.tensors as int;
            assert((x - 1) * c == x * c - c) by (nonlinear_arith);
        }
        refund
    }

    /// Archives `tile` and pays `player` its archive value.
    fn archive_for_credits(&mut self, player: usize, tile: usize) -> (refund: i32)
        requires
            old(self).wf(),
            player < old(self).players@.len(),
            is_model_tile(tile as int),
            old(self).models@[tile].owner == Some(player),
            !old(self).models@[tile].archived,
            old(self).models@[tile].tensors == 0,
            old(self).credits_of(player as int) < 100_000,
        ensures
            final(self).wf(),
            refund == price_of(parameters_of_tile(tile as int)) / 2,
            50 <= refund <= 150,
            credits_changed_only(old(self).players@, final(self).players@, player as int),
            final(self).credits_of(player as int) == old(self).credits_of(player as int) + refund,
            final(self).models@ == old(self).models@.insert(tile, archived_state(old(self).models@[tile])),
            liquid_value(final(self).models@, player as int) == liquid_value(old(self).models@, player as int) - refund,
            final(self).logs == old(self).logs,
            final(self).phase == old(self).phase,
            final(self).auction == old(self).auction,
            final(self).pending_bank_auctions == old(self).pending_bank_auctions,
            final(self).winners == old(self).winners,
            same_turn(*old(self), *final(self)),
    {
        let definition = crate::catalog::model(tile).unwrap();
        let refund = definition.archive_value();
        proof { crate::catalog::lemma_price_range(parameters_of_tile(tile as int)); }
        let state = self.read_model(tile);
        let archived = ModelState { archived: true, ..state };
        self.write_model(tile, archived);
        self.players[player].credits = self.players[player].credits + refund;
        proof {
            lemma_liquid_update(old(self).models@, player as int, tile, archived);
        }
        refund
    }

    /// Releases tensors, then archives models, until `player` holds at least
    /// `target` credits or has nothing left to sell.
    pub fn raise_credits(&mut self, player: usize, target: i32)
        requires
            old(self).wf(),
            player < old(self).players@.len(),
            0 <= target <= 100_000,
        ensures
            final(self).wf(),
            credits_changed_only(old(self).players@, final(self).players@, player as int),
            final(self).credits_of(player as int) + liquid_value(final(self).models@, player as int)
                == old(self).credits_of(player as int) + liquid_value(old(self).models@, player as int),
            final(self).credits_of(player as int) >= target || liquid_value(
                final(self).models@,
                player as int,
            ) == 0,
            old(self).credits_of(player as int) <= final(self).credits_of(player as int),
            final(self).credits_of(player as int) <= old(self).credits_of(player as int) || final(self).credits_of(player as int) < target + 150,
            old(self).credits_of(player as int) >= target ==> *final(self) == *old(self),
            ({
                let r = raised(old(self).models@, old(self).credits_of(player as int), player as int, target as int, 80);
                final(self).models@ == r.0 && final(self).credits_of(player as int) == r.1
            }),
            forall|t: usize| #[trigger] final(self).models@.contains_key(t) ==> final(self).models@[t].owner
                == old(self).models@[t].owner,
            forall|t: usize| #[trigger] old(self).models@[t].owner != Some(player) ==> final(self).models@[t] == old(self).models@[t],
            final(self).logs == old(self).logs,
            final(self).phase == old(self).phase,
            final(self).auction == old(self).auction,
            final(self).pending_bank_auctions == old(self).pending_bank_auctions,
            final(self).winners == old(self).winners,
            same_turn(*old(self), *final(self)),
    {
        let ghost start = *old(self);
        let ghost goal = raised(start.models@, start.credits_of(player as int), player as int, target as int, 80);
        let ghost mut fuel: nat = 80;
        proof {
            lemma_wf_tensors(start);
            lemma_units_range(start.models@, player as int);
        }
        loop
            invariant
                self.wf(),
                player < self.players@.len(),
                0 <= target <= 100_000,
                raised(self.models@, self.credits_of(player as int), player as int, target as int, fuel) == goal,
                units(self.models@, player as int) <= fuel,
                credits_changed_only(start.players@, self.players@, player as int),
                self.credits_of(player as int) + liquid_value(self.models@, player as int)
                    == start.credits_of(player as int) + liquid_value(start.models@, player as int),
                start.credits_of(player as int) <= self.credits_of(player as int),
                self.credits_of(player as int) <= start.credits_of(player as int) || self.credits_of(
                    player as int,
                ) < target + 150,
                start.credits_of(player as int) >= target ==> *self == start,
                forall|t: usize| #[trigger] self.models@.contains_key(t) ==> self.models@[t].owner
                    == start.models@[t].owner,
                forall|t: usize| #[trigger] start.models@[t].owner != Some(player) ==> self.models@[t]
                    == start.models@[t],
                self.logs == start.logs,
                self.phase == start.phase,
                self.auction == start.auction,
                self.pending_bank_auctions == start.pending_bank_auctions,
                self.winners == start.winners,
                same_turn(start, *self),
            ensures
                self.wf(),
                self.models@ == goal.0 && self.credits_of(player as int) == goal.1,
                credits_changed_only(start.players@, self.players@, player as int),
                self.credits_of(player as int) + liquid_value(self.models@, player as int)
                    == start.credits_of(player as int) + liquid_value(start.models@, player as int),
                self.credits_of(player as int) >= target || liquid_value(self.models@, player as int) == 0,
                start.credits_of(player as int) <= self.credits_of(player as int),
                self.credits_of(player as int) <= start.credits_of(player as int) || self.credits_of(
                    player as int,
                ) < target + 150,
                start.credits_of(player as int) >= target ==> *self == start,
                forall|t: usize| #[trigger] self.models@.contains_key(t) ==> self.models@[t].owner
                    == start.models@[t].owner,
                forall|t: usize| #[trigger] start.models@[t].owner != Some(player) ==> self.models@[t]
                    == start.models@[t],
                self.logs == start.logs,
                self.phase == start.phase,
                self.auction == start.auction,
                self.pending_bank_auctions == start.pending_bank_auctions,
                self.winners == start.winners,
                same_turn(start, *self),
            decreases liquid_value(self.models@, player as int),
        {
            proof { lemma_liquid_nonneg(self.models@, player as int); }
            if self.players[player].credits >= target {
                break;
            }
            let ghost before = *self;
            proof {
                lemma_wf_tensors(before);
                lemma_units_range(before.models@, player as int);
            }
            if let Some(tile) = self.tensor_tile_to_release(player) {
                proof {
                    assert(units_of(before.models@, player as int, tile as int) >= 1);
                    let k = crate::catalog::index_of_tile(tile as int);
                    assert(tile_of_index(k) == tile as int);
                    assert(fuel >= 1);
                }
                let refund = self.release_for_credits(player, tile);
                proof {
                    lemma_liquid_nonneg(self.models@, player as int);
                    lemma_units_update(before.models@, player as int, tile, one_tensor_less(before.models@[tile]));
                    fuel = (fuel - 1) as nat;
                }
                continue;
            }
            if let Some(tile) = self.model_to_archive(player) {
                proof {
                    assert(units_of(before.models@, player as int, tile as int) >= 1);
                    let k = crate::catalog::index_of_tile(tile as int);
                    assert(tile_of_index(k) == tile as int);
                    assert(fuel >= 1);
                }
                let refund = self.archive_for_credits(player, tile);
                proof {
                    lemma_liquid_nonneg(self.models@, player as int);
                    lemma_units_update(before.models@, player as int, tile, archived_state(before.models@[tile]));
                    fuel = (fuel - 1) as nat;
                }
                continue;
            }
            proof {
                let f = |t: int| liquid_value_of(self.models@, player as int, t);
                assert forall|i: int| 0 <= i < 16 implies f(#[trigger] tile_of_index(i)) <= 0 by {
                    let st = self.models@[tile_of_index(i) as usize];
                    assert(st.owner == Some(player) ==> st.tensors == 0);
                }
                crate::sums::lemma_roster_sum_bounded(f, 16, 0);
            }
            break;
        }
    }
}

} // verus!

verus! {

/// The tiles a player owns, as listed in roster order, are model tiles the
/// player owns; the list is empty only when the player owns none of them.
proof fn lemma_owned_tiles(models: Map<usize, ModelState>, player: int, n: int)
    requires
        0 <= n <= 16,
    ensures
        forall|j: int| 0 <= j < owned_tiles_among(models, player, n).len() ==> is_model_tile(
            #[trigger] owned_tiles_among(models, player, n)[j] as int,
        ) && models[owned_tiles_among(models, player, n)[j]].owner == Some(player as usize),
        (exists|i: int| 0 <= i < n && #[trigger] models[tile_of_index(i) as usize].owner == Some(player as usize))
            ==> owned_tiles_among(models, player, n).len() > 0,
    decreases n,
{
    lemma_roster_tiles();
    if n > 0 {
        lemma_owned_tiles(models, player, n - 1);
        let prev = owned_tiles_among(models, player, n - 1);
        let cur = owned_tiles_among(models, player, n);
        assert forall|j: int| 0 <= j < cur.len() implies is_model_tile(#[trigger] cur[j] as int)
            && models[cur[j]].owner == Some(player as usize) by {
            if j < prev.len() {
                assert(cur[j] == prev[j]);
            }
        }
        if exists|i: int| 0 <= i < n && #[trigger] models[tile_of_index(i) as usize].owner == Some(player as usize) {
            let i = choose|i: int| 0 <= i < n && #[trigger] models[tile_of_index(i) as usize].owner == Some(
                player as usize,
            );
            if i < n - 1 {
                assert(prev.len() > 0);
            }
        }
    }
}

/// The list of a player's tiles depends only on who owns what.
proof fn lemma_owned_tiles_same(m1: Map<usize, ModelState>, m2: Map<usize, ModelState>, player: int, n: int)
    requires
        0 <= n <= 16,
        forall|t: usize| #[trigger] is_model_tile(t as int) ==> m1[t].owner == m2[t].owner,
    ensures
        owned_tiles_among(m1, player, n) == owned_tiles_among(m2, player, n),
    decreases n,
{
    lemma_roster_tiles();
    if n > 0 {
        lemma_owned_tiles_same(m1, m2, player, n - 1);
        assert(is_model_tile(tile_of_index(n - 1)));
    }
}

/// A player's means are the same in two games where their credits are the
/// same and every model they own in either game has the same record.
pub proof fn lemma_means_frame(a: Game, b: Game, k: int)
    requires
        a.credits_of(k) == b.credits_of(k),
        forall|t: usize| #[trigger] is_model_tile(t as int) && (a.models@[t].owner == Some(k as usize)
            || b.models@[t].owner == Some(k as usize)) ==> a.models@[t] == b.models@[t],
    ensures
        means(a, k) == means(b, k),
{
    lemma_roster_tiles();
    let f = |t: int| liquid_value_of(a.models@, k, t);
    let g = |t: int| liquid_value_of(b.models@, k, t);
    assert forall|i: int| 0 <= i < 16 implies f(#[trigger] tile_of_index(i)) == g(tile_of_index(i)) by {
        let t = tile_of_index(i) as usize;
        assert(is_model_tile(t as int));
    }
    crate::sums::lemma_roster_sum_same(f, g, 16);
}

/// Credits plus everything a player could still raise.
pub open spec fn means(g: Game, player: int) -> int {
    g.credits_of(player) + liquid_value(g.models@, player)
}

/// How a debt of `amount` owed by `player` to `creditor` (or the bank) was
/// settled from game `a` to game `b`: the player goes bankrupt exactly when
/// their means fall short, and a creditor still in the game receives the debt,
/// or all the player's means when they fall short, together with every model
/// the player owned, stripped of its tensors (which otherwise go back to the
/// bank); when one player is left, they win.
pub open spec fn debt_settled(a: Game, b: Game, player: int, amount: int, creditor: Option<usize>) -> bool {
    &&& b.players@[player].bankrupt == (a.players@[player].bankrupt || means(a, player) < amount)
    &&& b.players@.len() == a.players@.len()
    &&& b.players@[player].position == a.players@[player].position
    &&& forall|i: int| 0 <= i < a.players@.len() && i != player && creditor != Some(i as usize)
        ==> #[trigger] b.players@[i] == a.players@[i]
    &&& forall|i: int| 0 <= i < a.players@.len() && i != player ==> #[trigger] b.players@[i] == (Player {
        credits: b.players@[i].credits,
        ..a.players@[i]
    })
    &&& forall|t: usize| #[trigger] is_model_tile(t as int) && a.models@[t].owner != Some(player as usize)
        ==> b.models@[t] == a.models@[t]
    &&& alive_ids(b.players@).len() != 1 ==> b.winners == a.winners
    &&& means(a, player) < amount && a.phase != Phase::GameOver ==> (b.phase == Phase::GameOver <==> alive_ids(
        b.players@,
    ).len() == 1)
    &&& means(a, player) >= amount ==> b.auction == a.auction && b.pending_bank_auctions == a.pending_bank_auctions
    &&& ({
        &&& means(a, player) < amount
        &&& a.phase != Phase::GameOver
        &&& alive_ids(b.players@).len() > 1
    }) ==> {
        let queue = a.pending_bank_auctions@ + if heir(a, player, creditor) is None {
            owned_tiles_among(a.models@, player, MODEL_COUNT as int)
        } else {
            Seq::<usize>::empty()
        };
        &&& a.auction is Some ==> b.auction == a.auction && b.pending_bank_auctions@ == queue
        &&& a.auction is None && queue.len() > 0 ==> {
            &&& b.auction matches Some(x) && crate::auction::fresh_auction(x, queue.last(), b)
            &&& b.pending_bank_auctions@ == queue.drop_last()
        }
        &&& a.auction is None && queue.len() == 0 ==> b.auction is None && b.pending_bank_auctions@.len() == 0
    }
    &&& forall|t: usize| #[trigger] is_model_tile(t as int) ==> b.models@[t].owner == if means(a, player) < amount
        && a.models@[t].owner == Some(player as usize) {
        heir(a, player, creditor)
    } else {
        a.models@[t].owner
    }
    &&& means(a, player) < amount ==> {
        let r = raised(a.models@, a.credits_of(player), player, amount, 80);
        &&& b.credits_of(player) == 0
        &&& forall|t: usize| #[trigger] is_model_tile(t as int) && a.models@[t].owner == Some(player as usize)
            ==> b.models@[t] == inherited(r.0[t], heir(a, player, creditor))
        &&& alive_ids(b.players@).len() == 1 ==> {
            &&& b.winners@ == alive_ids(b.players@)
            &&& b.phase == Phase::GameOver
        }
    }
    &&& match creditor {
        Some(c) => !a.players@[c as int].bankrupt ==> b.credits_of(c as int) == a.credits_of(c as int) + if means(
            a,
            player,
        ) >= amount {
            amount
        } else {
            means(a, player)
        },
        None => true,
    }
}

impl Game {
    /// Charges `player` `amount` credits, paid to `creditor` (or the bank).
    /// Tensors and models are sold off as needed; a player who still cannot
    /// pay goes bankrupt, and models returned to the bank go to auction.
    pub fn charge(&mut self, player: usize, amount: i32, creditor: Option<usize>)
        requires
            old(self).wf(),
            old(self).no_bids(),
            player < old(self).players@.len(),
            creditor matches Some(c) ==> c < old(self).players@.len(),
            creditor != Some(player),
            0 <= amount <= 10_000,
            old(self).credits_at_most(i32::MAX - 10_150),
        ensures
            final(self).wf(),
            final(self).no_bids(),
            same_turn(*old(self), *final(self)),
            same_people(*old(self), *final(self)),
            log_extends(*old(self), *final(self)),
            credit_growth(*old(self), *final(self), amount + 150),
            final(self).players@[player as int].bankrupt == (old(self).players@[player as int].bankrupt
                || means(*old(self), player as int) < amount),
            means(*old(self), player as int) >= amount ==> means(*final(self), player as int) == means(
                *old(self),
                player as int,
            ) - amount,
            means(*old(self), player as int) < amount ==> final(self).credits_of(player as int) == 0,
            means(*old(self), player as int) >= amount ==> final(self).logs == old(self).logs,
            alive_ids(final(self).players@).len() != 1 ==> final(self).winners == old(self).winners,
            means(*old(self), player as int) < amount && old(self).phase != Phase::GameOver ==> (final(self).phase
                == Phase::GameOver <==> alive_ids(final(self).players@).len() == 1),
            means(*old(self), player as int) < amount ==> bankruptcy_logged(
                old(self).logs@,
                *final(self),
                player,
                creditor,
            ),
            means(*old(self), player as int) < amount ==> {
                let r = raised(old(self).models@, old(self).credits_of(player as int), player as int, amount as int, 80);
                let h = heir(*old(self), player as int, creditor);
                &&& forall|t: usize| #[trigger] is_model_tile(t as int) && old(self).models@[t].owner == Some(player)
                    ==> final(self).models@[t] == inherited(r.0[t], h)
                &&& final(self).logs@.len() > old(self).logs@.len()
                &&& final(self).logs@[old(self).logs@.len() as int] == (GameLog::Bankrupt { player, creditor })
                &&& alive_ids(final(self).players@).len() == 1 ==> {
                    &&& final(self).winners@ == alive_ids(final(self).players@)
                    &&& final(self).phase == Phase::GameOver
                }
            },
            means(*old(self), player as int) >= amount ==> *final(self) == (Game {
                players: final(self).players,
                models: final(self).models,
                ..*old(self)
            }),
            means(*old(self), player as int) >= amount ==> final(self).players@[player as int] == (crate::state::Player {
                credits: final(self).players@[player as int].credits,
                ..old(self).players@[player as int]
            }),
            means(*old(self), player as int) >= amount ==> {
                let r = raised(old(self).models@, old(self).credits_of(player as int), player as int, amount as int, 80);
                final(self).models@ == r.0 && final(self).credits_of(player as int) == r.1 - amount
            },
            match creditor {
                Some(c) => !old(self).players@[c as int].bankrupt ==> final(self).credits_of(c as int)
                    == old(self).credits_of(c as int) + if means(*old(self), player as int) >= amount {
                    amount as int
                } else {
                    means(*old(self), player as int)
                },
                None => true,
            },
            forall|i: int| 0 <= i < old(self).players@.len() && i != player && (creditor != Some(i as usize))
                ==> #[trigger] final(self).players@[i] == old(self).players@[i],
            forall|t: usize| #[trigger] is_model_tile(t as int) && old(self).models@[t].owner != Some(player)
                ==> final(self).models@[t] == old(self).models@[t],
            forall|i: int| 0 <= i < old(self).players@.len() && i != player ==> (#[trigger] final(self).players@[i]).bankrupt
                == old(self).players@[i].bankrupt,
            forall|t: usize| #[trigger] is_model_tile(t as int) ==> final(self).models@[t].owner == if means(
                *old(self),
                player as int,
            ) < amount && old(self).models@[t].owner == Some(player) {
                heir(*old(self), player as int, creditor)
            } else {
                old(self).models@[t].owner
            },
            ({
                &&& means(*old(self), player as int) < amount
                &&& heir(*old(self), player as int, creditor) is None
                &&& old(self).auction is None
                &&& old(self).pending_bank_auctions@.len() == 0
                &&& final(self).phase != Phase::GameOver
                &&& alive_ids(final(self).players@).len() > 0
                &&& exists|t: usize| is_model_tile(t as int) && #[trigger] old(self).models@[t].owner == Some(player)
            }) ==> (final(self).auction matches Some(a) && old(self).models@[a.tile].owner == Some(player)
                && final(self).phase == Phase::Auction),
            ({
                &&& means(*old(self), player as int) < amount
                &&& old(self).phase != Phase::GameOver
                &&& alive_ids(final(self).players@).len() > 1
            }) ==> {
                let queue = old(self).pending_bank_auctions@ + if heir(*old(self), player as int, creditor) is None {
                    owned_tiles_among(old(self).models@, player as int, MODEL_COUNT as int)
                } else {
                    Seq::<usize>::empty()
                };
                &&& old(self).auction is Some ==> {
                    &&& final(self).auction == old(self).auction
                    &&& final(self).pending_bank_auctions@ == queue
                    &&& final(self).phase == old(self).phase
                }
                &&& old(self).auction is None && queue.len() > 0 ==> {
                    &&& final(self).auction matches Some(a) && crate::auction::fresh_auction(a, queue.last(), *final(self))
                    &&& final(self).pending_bank_auctions@ == queue.drop_last()
                    &&& final(self).phase == Phase::Auction
                }
                &&& old(self).auction is None && queue.len() == 0 ==> {
                    &&& final(self).auction is None
                    &&& final(self).pending_bank_auctions@.len() == 0
                    &&& final(self).phase == old(self).phase
                }
            },
    {
        let ghost start = *self;
        self.raise_credits(player, amount);
        proof { lemma_liquid_nonneg(self.models@, player as int); }
        let ghost raised = *self;
        let paid = self.pay_what_is_held(player, amount, creditor);
        let ghost paid_out = *self;
        assert(paid == amount <==> means(start, player as int) >= amount);
        proof {
            lemma_roster_tiles();
            assert(heir(paid_out, player as int, creditor) == heir(start, player as int, creditor));
            assert forall|t: usize| #[trigger] is_model_tile(t as int) implies paid_out.models@[t].owner
                == start.models@[t].owner by {
                assert(raised.models@.contains_key(t));
            }
            lemma_owned_tiles_same(paid_out.models@, start.models@, player as int, MODEL_COUNT as int);
            lemma_owned_tiles(start.models@, player as int, MODEL_COUNT as int);
            if exists|t: usize| is_model_tile(t as int) && #[trigger] start.models@[t].owner == Some(player) {
                let t = choose|t: usize| is_model_tile(t as int) && #[trigger] start.models@[t].owner == Some(player);
                let k = crate::catalog::index_of_tile(t as int);
                assert(start.models@[tile_of_index(k) as usize].owner == Some(player));
            }
        }
        if paid < amount {
            self.bankrupt(player, creditor);
            if self.phase != Phase::GameOver && self.auction.is_none() {
                if let Some(tile) = self.pending_bank_auctions.pop() {
                    self.start_auction(tile);
                }
            }
        }
        proof {
            assert forall|b: int| #[trigger] start.credits_at_most(b) implies self.credits_at_most(
                b + amount + 150,
            ) by {
                assert forall|i: int| 0 <= i < self.players@.len() implies #[trigger] self.players@[i].credits
                    <= b + amount + 150 by {
                    assert(start.players@[i].credits <= b);
                    assert(start.players@[player as int].credits <= b);
                }
            }
        }
    }

    /// Pays up to `amount` of `player`'s credits to `creditor` (if it is not
    /// bankrupt) or to the bank, and returns what was paid.
    fn pay_what_is_held(&mut self, player: usize, amount: i32, creditor: Option<usize>) -> (paid: i32)
        requires
            old(self).wf(),
            old(self).no_bids(),
            player < old(self).players@.len(),
            creditor matches Some(c) ==> c < old(self).players@.len(),
            creditor != Some(player),
            0 <= amount <= 10_000,
            old(self).credits_at_most(i32::MAX - 10_000),
        ensures
            final(self).wf(),
            final(self).no_bids(),
            paid == if amount < old(self).credits_of(player as int) {
                amount
            } else {
                old(self).players@[player as int].credits
            },
            final(self).models == old(self).models,
            final(self).logs == old(self).logs,
            final(self).phase == old(self).phase,
            final(self).auction == old(self).auction,
            final(self).pending_bank_auctions == old(self).pending_bank_auctions,
            final(self).winners == old(self).winners,
            same_turn(*old(self), *final(self)),
            same_people(*old(self), *final(self)),
            final(self).players@.len() == old(self).players@.len(),
            forall|i: int| 0 <= i < old(self).players@.len() ==> (#[trigger] final(self).players@[i]).bankrupt
                == old(self).players@[i].bankrupt,
            match creditor {
                Some(c) => if !old(self).players@[c as int].bankrupt {
                    &&& final(self).credits_of(player as int) == old(self).credits_of(player as int) - paid
                    &&& final(self).credits_of(c as int) == old(self).credits_of(c as int) + paid
                    &&& forall|i: int| 0 <= i < old(self).players@.len() && i != player && i != c ==> #[trigger] final(self).players@[i] == old(self).players@[i]
                } else {
                    &&& final(self).credits_of(player as int) == old(self).credits_of(player as int) - paid
                    &&& forall|i: int| 0 <= i < old(self).players@.len() && i != player ==> #[trigger] final(self).players@[i] == old(self).players@[i]
                },
                None => {
                    &&& final(self).credits_of(player as int) == old(self).credits_of(player as int) - paid
                    &&& forall|i: int| 0 <= i < old(self).players@.len() && i != player ==> #[trigger] final(self).players@[i] == old(self).players@[i]
                },
            },
    {
        let credits = self.players[player].credits;
        let paid = if amount < credits {
            amount
        } else {
            credits
        };
        self.players[player].credits = credits - paid;
        if let Some(to) = creditor {
            if !self.players[to].bankrupt {
                self.players[to].credits = self.players[to].credits + paid;
            }
        }
        paid
    }
}

} // verus!
