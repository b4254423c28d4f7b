//! Read-only questions about a game: whose turn it is, family holdings, fees, worth.
use vstd::prelude::*;
use crate::catalog::{family_tile_of, is_model_tile, model, model_at, parameters_of_tile, tile_of_index, ModelFamily, MODEL_COUNT};
use crate::state::{holding_worth, owned_among, owned_in_family, owns_family_tile, roster_sum, tensor_multiplier, usage_fee, Game, Player};
use crate::sums::lemma_roster_tiles;

verus! {

/// Usage fee multiplier by tensor count.
fn multiplier(tensors: u8) -> (m: i32)
    requires
        tensors <= 4,
    ensures
        m == tensor_multiplier(tensors as int),
{
    if tensors == 0 {
        1
    } else if tensors == 1 {
        5
    } else if tensors == 2 {
        15
    } else if tensors == 3 {
        45
    } else {
        80
    }
}

impl Game {
    /// The player whose turn it is.
    pub fn current(&self) -> (player: &Player)
        requires
            self.current_player < self.players@.len(),
        ensures
            *player == self.players@[self.current_player as int],
    {
        &self.players[self.current_player]
    }

    /// The player who must bid or pass in the running auction, if any.
    pub fn auction_actor(&self) -> (actor: Option<usize>)
        ensures
            actor == match self.auction {
                Some(a) => if a.bidder_index < a.active@.len() {
                    Some(a.active@[a.bidder_index as int])
                } else {
                    None
                },
                None => None,
            },
    {
        match &self.auction {
            Some(a) => a.current_bidder(),
            None => None,
        }
    }

    /// How many models of `family` the player owns.
    pub fn family_model_count(&self, player: usize, family: ModelFamily) -> (count: usize)
        requires
            self.wf(),
        ensures
            count == owned_in_family(self.models@, player as int, family),
            count <= 4,
    {
        let mut count: usize = 0;
        let mut k: usize = 0;
        while k < 4
            invariant
                self.wf(),
                k <= 4,
                count == owned_among(self.models@, player as int, family, k as int),
                count <= k,
            decreases 4 - k,
        {
            let tile = family_tile_of(family, k);
            let state = self.read_model(tile);
            let owned = match state.owner {
                Some(o) => o == player,
                None => false,
            };
            assert(owned == owns_family_tile(self.models@, player as int, family, k as int));
            if owned {
                count = count + 1;
            }
            k = k + 1;
        }
        count
    }

    /// Whether the player owns at least three models of `family`, which allows tensors.
    pub fn has_tensor_access(&self, player: usize, family: ModelFamily) -> (access: bool)
        requires
            self.wf(),
        ensures
            access == (owned_in_family(self.models@, player as int, family) >= 3),
    {
        self.family_model_count(player, family) >= 3
    }

    /// The usage fee a visitor pays on a model tile.
    pub fn usage_fee_for(&self, tile: usize) -> (fee: i32)
        requires
            self.wf(),
            is_model_tile(tile as int),
        ensures
            fee == usage_fee(self.models@, tile as int),
            0 <= fee <= 2400,
    {
        let definition = model(tile).unwrap();
        let state = self.read_model(tile);
        proof { crate::catalog::lemma_price_range(parameters_of_tile(tile as int)); }
        assert(self.models@.contains_key(tile));
        assert(state.tensors <= 4);
        let owner = match state.owner {
            Some(owner) => owner,
            None => return 0,
        };
        if state.archived {
            return 0;
        }
        if state.tensors == 0 {
            let factor = if self.has_tensor_access(owner, definition.family) {
                2
            } else {
                1
            };
            definition.base_fee() * factor
        } else {
            let base = definition.base_fee();
            let m = multiplier(state.tensors);
            assert(0 <= base * m <= 2400) by (nonlinear_arith)
                requires
                    0 <= base <= 30,
                    0 <= m <= 80,
            ;
            base * m
        }
    }

    /// A player's net worth: credits plus models at their price (half if
    /// archived) plus half the cost of every tensor.
    pub fn net_worth(&self, player: usize) -> (worth: i32)
        requires
            self.wf(),
            player < self.players@.len(),
            self.credits_at_most(i32::MAX - 11_200),
        ensures
            worth == self.worth_of(player as int),
    {
        proof { lemma_roster_tiles(); }
        let mut total: i32 = self.players[player].credits;
        let mut i: usize = 0;
        while i < MODEL_COUNT
            invariant
                self.wf(),
                player < self.players@.len(),
                self.credits_at_most(i32::MAX - 11_200),
                i <= MODEL_COUNT,
                total == self.credits_of(player as int) + roster_sum(
                    |t: int| holding_worth(self.models@, player as int, t),
                    i as int,
                ),
                0 <= total - self.credits_of(player as int) <= 700 * i,
            decreases MODEL_COUNT - i,
        {
            let definition = model_at(i);
            let state = self.read_model(definition.tile);
            proof {
                crate::catalog::lemma_price_range(definition.parameter_count);
                assert(self.models@.contains_key(definition.tile));
            }
            let owned = match state.owner {
                Some(o) => o == player,
                None => false,
            };
            let mut value: i32 = 0;
            if owned {
                value = if state.archived {
                    definition.archive_value()
                } else {
                    definition.price()
                };
                let each = definition.tensor_cost / 2;
                assert(0 <= state.tensors * each <= 400) by (nonlinear_arith)
                    requires
                        0 <= state.tensors <= 4,
                        0 <= each <= 100,
                ;
                value = value + state.tensors as i32 * each;
            }
            assert(value == holding_worth(self.models@, player as int, tile_of_index(i as int)));
            total = total + value;
            i = i + 1;
        }
        total
    }
}

} // verus!
