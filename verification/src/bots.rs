//! The bots: a fixed policy for buying, bidding and upgrading, and a driver
//! that plays their moves until the human has to act.
use vstd::prelude::*;
use vstd::string::*;
use crate::catalog::{family_of_tile, model, model_at, parameters_of_tile, price_of, tensor_cost_of, tile_of_index, Difficulty, MODEL_COUNT};
use crate::market::{family_low, invalid_action, minimum_bid, restore_cost};
use crate::play::apply_outcome;
use crate::state::{owned_in_family, Action, Game, GameError, Phase};

verus! {

/// Credits a bot keeps in hand when buying or bidding.
pub open spec fn purchase_reserve_for(difficulty: Difficulty) -> int {
    if difficulty == Difficulty::Easy {
        500
    } else {
        200
    }
}

/// Credits a bot keeps in hand when restoring models or adding tensors.
pub open spec fn improvement_reserve_for(difficulty: Difficulty) -> int {
    if difficulty == Difficulty::Easy {
        600
    } else {
        300
    }
}

/// Whether the bot in seat `player` wants to restore the model at roster index `i`.
pub open spec fn restore_wanted(g: Game, player: int, i: int) -> bool {
    let tile = tile_of_index(i);
    let st = g.models@[tile as usize];
    &&& st.owner == Some(player as usize)
    &&& st.archived
    &&& g.credits_of(player) - restore_cost(tile) >= improvement_reserve_for(g.config.difficulty)
}

/// Whether the bot in seat `player` wants a tensor on the model at roster index `i`.
pub open spec fn tensor_wanted(g: Game, player: int, i: int) -> bool {
    let tile = tile_of_index(i);
    let st = g.models@[tile as usize];
    let family = family_of_tile(tile);
    &&& st.owner == Some(player as usize)
    &&& owned_in_family(g.models@, player, family) >= 3
    &&& st.tensors < 4
    &&& g.credits_of(player) - tensor_cost_of(family) >= improvement_reserve_for(g.config.difficulty)
    &&& st.tensors == family_low(g.models@, player, family)
}

/// The first of the first `k` roster models the bot wants to restore (or to
/// add a tensor to, when `restore` is false).
pub open spec fn first_wanted(g: Game, player: int, k: int, restore: bool) -> Option<usize>
    decreases k,
{
    if k <= 0 {
        None
    } else {
        match first_wanted(g, player, k - 1, restore) {
            Some(t) => Some(t),
            None => if (if restore {
                restore_wanted(g, player, k - 1)
            } else {
                tensor_wanted(g, player, k - 1)
            }) {
                Some(tile_of_index(k - 1) as usize)
            } else {
                None
            },
        }
    }
}

/// What a bot does while managing: restore an archived model it can afford,
/// else add a tensor where its family is lowest, else nothing.
pub open spec fn management_choice(g: Game, player: int) -> Option<Action> {
    match first_wanted(g, player, MODEL_COUNT as int, true) {
        Some(t) => Some(Action::Restore(t)),
        None => match first_wanted(g, player, MODEL_COUNT as int, false) {
            Some(t) => Some(Action::AllocateTensor(t)),
            None => None,
        },
    }
}

/// The most a bot bids for a model: its price (half more when it completes a
/// third model of the family), and never so much that its reserve is touched.
pub open spec fn bid_cap(g: Game, actor: int, tile: int) -> int {
    let price = price_of(parameters_of_tile(tile));
    let bonus = if owned_in_family(g.models@, actor, family_of_tile(tile)) == 2 {
        price / 2
    } else {
        0
    };
    let room = g.credits_of(actor) - purchase_reserve_for(g.config.difficulty);
    if price + bonus <= room {
        price + bonus
    } else {
        room
    }
}

/// The move the bots make in game `g`; none when the human must act or the
/// game is over.
pub open spec fn bot_action(g: Game) -> Option<Action> {
    if g.phase == Phase::GameOver {
        None
    } else if g.phase == Phase::Auction {
        match g.auction {
            None => None,
            Some(a) => if a.bidder_index >= a.active@.len() {
                None
            } else {
                let actor = a.active@[a.bidder_index as int];
                if g.players@[actor as int].is_human {
                    None
                } else if minimum_bid(a) <= bid_cap(g, actor as int, a.tile as int) {
                    Some(Action::AuctionBid(minimum_bid(a) as i32))
                } else {
                    Some(Action::AuctionPass)
                }
            },
        }
    } else {
        let player = g.current_player as int;
        if g.players@[player].is_human {
            None
        } else {
            match g.phase {
                Phase::AwaitRoll => Some(Action::Roll),
                Phase::OfferPurchase { tile } => if g.credits_of(player) - price_of(parameters_of_tile(tile as int))
                    >= purchase_reserve_for(g.config.difficulty) {
                    Some(Action::Buy)
                } else {
                    Some(Action::Decline)
                },
                Phase::Manage => match management_choice(g, player) {
                    Some(action) => Some(action),
                    None => Some(Action::EndTurn),
                },
                Phase::ChooseCard => Some(Action::PickCard(0)),
                _ => None,
            }
        }
    }
}

/// Each game in `trace` follows from the one before by the bots' move, applied
/// successfully.
pub open spec fn bot_moves(trace: Seq<Game>) -> bool {
    forall|i: int| 0 <= i < trace.len() - 1 ==> (bot_action(#[trigger] trace[i]) matches Some(action)
        && apply_outcome(trace[i], trace[i + 1], action, Ok(())))
}

/// How the driver left game `b`, started from game `a`, with result `r`.
pub open spec fn drove(a: Game, b: Game, r: Result<(), GameError>, trace: Seq<Game>) -> bool {
    &&& 1 <= trace.len() <= 10_001
    &&& trace[0] == a
    &&& trace.last() == b
    &&& bot_moves(trace)
    &&& r is Ok ==> bot_action(b) is None
    &&& r is Err ==> {
        ||| bot_action(b) matches Some(action) && apply_outcome(b, b, action, r)
        ||| trace.len() == 10_001 && invalid_action(r, "bot driver exceeded its safety limit"@)
    }
}

/// Once found, the first wanted model stays the first as more are looked at.
proof fn lemma_first_wanted_stays(g: Game, player: int, k: int, m: int, restore: bool)
    requires
        0 <= k <= m,
        first_wanted(g, player, k, restore) is Some,
    ensures
        first_wanted(g, player, m, restore) == first_wanted(g, player, k, restore),
    decreases m - k,
{
    if m > k {
        lemma_first_wanted_stays(g, player, k, m - 1, restore);
    }
}

/// Credits a bot keeps in hand when buying or bidding.
pub fn purchase_reserve(game: &Game) -> (reserve: i32)
    ensures
        reserve == purchase_reserve_for(game.config.difficulty),
{
    if game.config.difficulty == Difficulty::Easy {
        500
    } else {
        200
    }
}

/// Credits a bot keeps in hand when restoring models or adding tensors.
pub fn improvement_reserve(game: &Game) -> (reserve: i32)
    ensures
        reserve == improvement_reserve_for(game.config.difficulty),
{
    if game.config.difficulty == Difficulty::Easy {
        600
    } else {
        300
    }
}

/// The management move a bot makes: restore the first archived model it can
/// afford, else add a tensor to the first model where its family is lowest.
pub fn management_action(game: &Game, player: usize) -> (action: Option<Action>)
    requires
        game.wf(),
        player < game.players@.len(),
    ensures
        action == management_choice(*game, player as int),
{
    let reserve = improvement_reserve(game);
    let mut i: usize = 0;
    proof { crate::sums::lemma_roster_tiles(); }
    while i < MODEL_COUNT
        invariant
            game.wf(),
            player < game.players@.len(),
            reserve == improvement_reserve_for(game.config.difficulty),
            i <= MODEL_COUNT,
            first_wanted(*game, player as int, i as int, true) is None,
        decreases MODEL_COUNT - i,
    {
        let definition = model_at(i);
        let state = game.read_model(definition.tile);
        proof { crate::catalog::lemma_price_range(definition.parameter_count); }
        let owned = match state.owner {
            Some(o) => o == player,
            None => false,
        };
        if owned && state.archived {
            let cost = (definition.archive_value() * 110 + 99) / 100;
            if game.players[player].credits - cost >= reserve {
                proof {
                    assert(restore_wanted(*game, player as int, i as int));
                    lemma_first_wanted_stays(*game, player as int, i as int + 1, MODEL_COUNT as int, true);
                }
                return Some(Action::Restore(definition.tile));
            }
        }
        i = i + 1;
    }
    let mut k: usize = 0;
    while k < MODEL_COUNT
        invariant
            game.wf(),
            player < game.players@.len(),
            reserve == improvement_reserve_for(game.config.difficulty),
            k <= MODEL_COUNT,
            first_wanted(*game, player as int, MODEL_COUNT as int, true) is None,
            first_wanted(*game, player as int, k as int, false) is None,
        decreases MODEL_COUNT - k,
    {
        let definition = model_at(k);
        let state = game.read_model(definition.tile);
        proof { assert(game.models@.contains_key(definition.tile)); }
        let owned = match state.owner {
            Some(o) => o == player,
            None => false,
        };
        if owned && game.has_tensor_access(player, definition.family) && state.tensors < 4
            && game.players[player].credits - definition.tensor_cost >= reserve {
            let scan = game.scan_family(player, definition.family);
            if state.tensors == scan.low {
                proof {
                    assert(tensor_wanted(*game, player as int, k as int));
                    lemma_first_wanted_stays(*game, player as int, k as int + 1, MODEL_COUNT as int, false);
                }
                return Some(Action::AllocateTensor(definition.tile));
            }
        }
        k = k + 1;
    }
    None
}

/// The move the bots make now, if it is theirs to make.
pub fn bot_move(game: &Game) -> (action: Option<Action>)
    requires
        game.wf(),
        game.credits_at_most(i32::MAX - 13_000),
    ensures
        action == bot_action(*game),
{
    if game.phase == Phase::GameOver {
        return None;
    }
    if game.phase == Phase::Auction {
        let actor = match game.auction_actor() {
            Some(actor) => actor,
            None => return None,
        };
        let auction = match &game.auction {
            Some(a) => a,
            None => return None,
        };
        assert(game.auction_wf(*auction));
        if game.players[actor].is_human {
            return None;
        }
        let definition = model(auction.tile).unwrap();
        proof { crate::catalog::lemma_price_range(definition.parameter_count); }
        let owned = game.family_model_count(actor, definition.family);
        let completion_bonus = if owned == 2 {
            definition.price() / 2
        } else {
            0
        };
        let room = game.players[actor].credits - purchase_reserve(game);
        let value = definition.price() + completion_bonus;
        let cap = if value <= room {
            value
        } else {
            room
        };
        let minimum = if auction.high_bid == 0 {
            10
        } else {
            auction.high_bid + 10
        };
        if minimum <= cap {
            return Some(Action::AuctionBid(minimum));
        } else {
            return Some(Action::AuctionPass);
        }
    }
    let player = game.current_player;
    if game.players[player].is_human {
        return None;
    }
    match game.phase {
        Phase::AwaitRoll => Some(Action::Roll),
        Phase::OfferPurchase { tile } => {
            let price = model(tile).unwrap().price();
            proof { crate::catalog::lemma_price_range(parameters_of_tile(tile as int)); }
            if game.players[player].credits - price >= purchase_reserve(game) {
                Some(Action::Buy)
            } else {
                Some(Action::Decline)
            }
        },
        Phase::Manage => match management_action(game, player) {
            Some(action) => Some(action),
            None => Some(Action::EndTurn),
        },
        Phase::ChooseCard => Some(Action::PickCard(0)),
        _ => None,
    }
}

/// The game waits on the human or is over: it is the human's turn outside an
/// auction, or the human's turn to bid in one.
pub open spec fn humans_move(g: Game) -> bool {
    ||| g.phase == Phase::GameOver
    ||| g.phase != Phase::Auction && g.players@[g.current_player as int].is_human
    ||| g.phase == Phase::Auction && (g.auction matches Some(a) && a.bidder_index < a.active@.len()
        && g.players@[a.active@[a.bidder_index as int] as int].is_human)
}

/// A well-formed game where no bot has a move waits on the human, or is over.
pub proof fn lemma_no_bot_move(g: Game)
    requires
        g.wf(),
        bot_action(g) is None,
    ensures
        humans_move(g),
{
}

/// Plays the bots' moves until the human has to act or the game is over. A
/// move that the game refuses ends the run with that refusal, and so does a
/// run of 10,000 moves.
pub fn drive_bots(game: &mut Game) -> (result: Result<(), GameError>)
    requires
        old(game).wf(),
        old(game).credits_at_most(i32::MAX - 13_000 - 35_000_000),
    ensures
        final(game).wf(),
        exists|trace: Seq<Game>| drove(*old(game), *final(game), result, trace),
        crate::state::same_roster(*old(game), *final(game)),
        result is Ok ==> humans_move(*final(game)),
{
    let ghost mut trace: Seq<Game> = seq![*game];
    let mut count: usize = 0;
    while count < 10_000
        invariant
            game.wf(),
            count <= 10_000,
            game.credits_at_most(i32::MAX - 13_000 - 3_500 * (10_000 - count)),
            trace.len() == count + 1,
            trace[0] == *old(game),
            trace.last() == *game,
            bot_moves(trace),
            crate::state::same_roster(*old(game), *game),
        decreases 10_000 - count,
    {
        let action = match bot_move(game) {
            Some(action) => action,
            None => {
                assert(drove(*old(game), *game, Ok(()), trace));
                proof { lemma_no_bot_move(*game); }
                return Ok(());
            },
        };
        let ghost before = *game;
        assert(before.credits_at_most(i32::MAX - 13_000 - 3_500 * (10_000 - count)));
        let applied = game.apply(action);
        match applied {
            Ok(()) => {},
            Err(e) => {
                assert(drove(*old(game), *game, Err(e), trace));
                return Err(e);
            },
        }
        proof {
            assert(applied is Ok);
            assert(applied->Ok_0 == ());
            assert(applied == Ok::<(), GameError>(()));
            assert(apply_outcome(before, *game, action, Ok(())));
            let next = trace.push(*game);
            assert forall|i: int| 0 <= i < next.len() - 1 implies (bot_action(#[trigger] next[i]) matches Some(action)
                && apply_outcome(next[i], next[i + 1], action, Ok(()))) by {
                if i < trace.len() - 1 {
                    assert(next[i] == trace[i] && next[i + 1] == trace[i + 1]);
                } else {
                    assert(next[i] == before);
                }
            }
            trace = next;
            crate::state::lemma_roster_chain(*old(game), before, *game);
        }
        count = count + 1;
    }
    let result = Err(GameError::InvalidAction(String::from_str("bot driver exceeded its safety limit")));
    assert(drove(*old(game), *game, result, trace));
    result
}

} // verus!
