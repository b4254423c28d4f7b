//! Properties that relate several operations of the game.
use vstd::prelude::*;
use crate::bots::bot_action;
use crate::catalog::{family_of_tile, is_model_tile, lemma_price_range, parameters_of_tile, price_of, tensor_cost_of, Card, Difficulty};
use crate::market::{allocate_outcome, archive_outcome, buy_outcome, family_high, family_low, release_outcome, restore_cost, restore_outcome};
use crate::rng::{die_face, next_state};
use crate::saves::{v1_source, v1_tile};
use crate::state::{usage_fee, Action, Game, GameError, GameLog, ModelState, Phase, Player};
use crate::turn::{bypass_outcome, card_outcome, pay_cooldown_outcome, roll_outcome};
use crate::ending::end_turn_outcome;

verus! {

/// Archiving a model and restoring it again gives the model back as it was,
/// and costs the owner a tenth of its archive value, rounded up.
pub proof fn lemma_archive_restore_round_trip(a: Game, b: Game, c: Game, tile: usize)
    requires
        a.wf(),
        a.credits_at_most(i32::MAX - 150),
        archive_outcome(a, b, tile, Ok(())),
        restore_outcome(b, c, tile, Ok(())),
    ensures
        c.models@ == a.models@,
        c.players@.len() == a.players@.len(),
        c.credits_of(a.current_player as int) == a.credits_of(a.current_player as int) - (
        price_of(parameters_of_tile(tile as int)) / 2 + 9) / 10,
        forall|i: int| 0 <= i < a.players@.len() && i != a.current_player ==> #[trigger] c.players@[i] == a.players@[i],
{
    lemma_price_range(parameters_of_tile(tile as int));
    let v = price_of(parameters_of_tile(tile as int)) / 2;
    assert((v * 110 + 99) / 100 - v == (v + 9) / 10) by (nonlinear_arith)
        requires
            v >= 0,
    ;
    assert(a.models@.contains_key(tile));
    let p = a.current_player as int;
    assert(a.players@[p].credits <= i32::MAX - 150);
    assert(b.credits_of(p) == a.credits_of(p) + v);
    assert(c.credits_of(p) == b.credits_of(p) - restore_cost(tile as int));
    assert(c.models@ =~= a.models@);
}

/// Allocating a tensor on a family whose tensor counts differ by at most one,
/// and then releasing it again, always succeeds; it gives the models back as
/// they were and costs the owner the tensor's price less the half refunded.
pub proof fn lemma_allocate_release_round_trip(a: Game, b: Game, c: Game, tile: usize, r: Result<(), GameError>)
    requires
        a.wf(),
        allocate_outcome(a, b, tile, Ok(())),
        family_high(a.models@, a.current_player as int, family_of_tile(tile as int)) <= family_low(
            a.models@,
            a.current_player as int,
            family_of_tile(tile as int),
        ) + 1,
        release_outcome(b, c, tile, r),
    ensures
        r is Ok,
        c.models@ == a.models@,
        c.players@.len() == a.players@.len(),
        c.credits_of(a.current_player as int) == a.credits_of(a.current_player as int) - (tensor_cost_of(
            family_of_tile(tile as int),
        ) - tensor_cost_of(family_of_tile(tile as int)) / 2),
        forall|i: int| 0 <= i < a.players@.len() && i != a.current_player ==> #[trigger] c.players@[i] == a.players@[i],
        c.phase == a.phase,
{
    assert(a.models@.contains_key(tile));
    crate::market::lemma_raised_lowest_is_highest(a.models@, a.current_player as int, tile);
    assert(c.models@ =~= a.models@);
}

/// In a running auction someone is left to bid and it is their turn, the
/// high bidder is still among the bidders, and the bidder whose turn it is
/// does not hold the high bid unless bidding is over; so a pass never drops
/// the high bidder, and every action keeps this so.
pub proof fn lemma_auction_in_order(g: Game)
    requires
        g.wf(),
        g.phase == Phase::Auction,
    ensures
        g.auction matches Some(a) && {
            &&& a.active@.len() > 0
            &&& a.bidder_index < a.active@.len()
            &&& a.high_bidder matches Some(h) ==> a.active@.contains(h)
            &&& !crate::auction::auction_over(a) ==> a.high_bidder != Some(a.active@[a.bidder_index as int])
        },
{
}

/// Two games with the same generator state roll the same dice and leave the
/// generator in the same state: a saved game replays exactly.
pub proof fn lemma_roll_is_deterministic(a1: Game, a2: Game, b1: Game, b2: Game)
    requires
        a1.phase == Phase::AwaitRoll,
        a2.phase == Phase::AwaitRoll,
        a1.rng == a2.rng,
        roll_outcome(a1, b1, Ok(())),
        roll_outcome(a2, b2, Ok(())),
    ensures
        b1.last_roll == b2.last_roll,
        b1.last_roll == Some((die_face(a1.rng.spec_state()), die_face(next_state(a1.rng.spec_state())))),
        b1.rng.spec_state() == b2.rng.spec_state(),
{
    let s = a1.rng.spec_state();
    assert(b1.last_roll == Some((die_face(s), die_face(next_state(s)))));
    assert(b2.last_roll == Some((die_face(s), die_face(next_state(s)))));
}

/// An easy bot buys no model that a standard bot in its place would decline.
pub proof fn lemma_easy_bots_buy_no_more(g: Game)
    requires
        g.config.difficulty == Difficulty::Easy,
        bot_action(g) == Some(Action::Buy),
    ensures
        bot_action(Game { config: crate::state::GameConfig { difficulty: Difficulty::Standard, ..g.config }, ..g })
            == Some(Action::Buy),
{
}

/// The first board layout's model tiles land on distinct model tiles of the
/// current board, and each current model tile comes from at most one of them.
pub proof fn lemma_v1_tiles_move_onto_models()
    ensures
        forall|t: int| #[trigger] v1_tile(t) matches Some(n) ==> is_model_tile(n as int) && v1_source(n as int) == Some(
            t as usize,
        ),
        forall|t: int, u: int| #[trigger] v1_tile(t) is Some && #[trigger] v1_tile(u) is Some && t != u ==> v1_tile(t)
            != v1_tile(u),
{
}

/// A model owned by someone, not archived, with tensors on it charges its
/// base fee (a tenth of its price) times 5, 15, 45 or 80 for one to four
/// tensors: at least five times the base fee.
pub proof fn lemma_fee_with_tensors(g: Game, tile: usize)
    requires
        g.wf(),
        is_model_tile(tile as int),
        g.models@[tile].owner is Some,
        !g.models@[tile].archived,
        g.models@[tile].tensors >= 1,
    ensures
        usage_fee(g.models@, tile as int) == price_of(parameters_of_tile(tile as int)) / 10 * if g.models@[tile].tensors
            == 1 {
            5int
        } else if g.models@[tile].tensors == 2 {
            15int
        } else if g.models@[tile].tensors == 3 {
            45int
        } else {
            80int
        },
        usage_fee(g.models@, tile as int) >= 5 * (price_of(parameters_of_tile(tile as int)) / 10),
{
    assert(g.models@.contains_key(tile));
    lemma_price_range(parameters_of_tile(tile as int));
}

/// Without tensors a model charges its base fee, a tenth of its price,
/// doubled when its owner holds three or more of the family's four models; an
/// archived or unowned model charges nothing.
pub proof fn lemma_fee_without_tensors(models: Map<usize, ModelState>, tile: usize)
    requires
        is_model_tile(tile as int),
    ensures
        models[tile].owner is None || models[tile].archived ==> usage_fee(models, tile as int) == 0,
        models[tile].owner is Some && !models[tile].archived && models[tile].tensors == 0 ==> usage_fee(
            models,
            tile as int,
        ) == price_of(parameters_of_tile(tile as int)) / 10 * if crate::state::owned_in_family(
            models,
            models[tile].owner->0 as int,
            family_of_tile(tile as int),
        ) >= 3 {
            2int
        } else {
            1int
        },
{
}

/// Every tensor added to an owned, unarchived model raises its usage fee.
pub proof fn lemma_fee_grows_with_tensors(models: Map<usize, ModelState>, tile: usize)
    requires
        is_model_tile(tile as int),
        models[tile].owner is Some,
        !models[tile].archived,
        models[tile].tensors < 4,
    ensures
        usage_fee(models.insert(tile, ModelState { tensors: (models[tile].tensors + 1) as u8, ..models[tile] }), tile as int)
            > usage_fee(models, tile as int),
{
    lemma_price_range(parameters_of_tile(tile as int));
    let base = price_of(parameters_of_tile(tile as int)) / 10;
    assert(base >= 10);
    let t = models[tile].tensors;
    let bigger = models.insert(tile, ModelState { tensors: (t + 1) as u8, ..models[tile] });
    assert(bigger[tile].tensors == t + 1);
    if t == 0 {
        assert(usage_fee(models, tile as int) <= base * 2) by (nonlinear_arith)
            requires
                usage_fee(models, tile as int) == base * 1 || usage_fee(models, tile as int) == base * 2,
                base >= 0,
        ;
        assert(usage_fee(bigger, tile as int) == base * 5);
        assert(base * 5 > base * 2) by (nonlinear_arith)
            requires
                base >= 10,
        ;
    } else {
        assert(base * 5 < base * 15 && base * 15 < base * 45 && base * 45 < base * 80) by (nonlinear_arith)
            requires
                base >= 10,
        ;
    }
}

/// The four flagship models stand on spaces 5, 11, 17 and 23.
pub open spec fn is_flagship(space: int) -> bool {
    space == 5 || space == 11 || space == 17 || space == 23
}

/// The advance-to-flagship card takes the player forward to the nearest
/// flagship ahead of them, going round past the hub to space 5 from the last
/// one: no flagship lies strictly between where they stood and where they go.
pub proof fn lemma_flagship_is_the_next_one(a: Game, b: Game)
    requires
        a.wf(),
        card_outcome(a, b),
        a.deck@[a.deck_index as int] == Card::AdvanceFlagship,
    ensures
        exists|target: int| {
            let from = a.players@[a.current_player as int].position as int;
            &&& #[trigger] is_flagship(target)
            &&& (from < target && forall|f: int| is_flagship(f) && from < f ==> target <= f) || (target == 5
                && forall|f: int| is_flagship(f) ==> f <= from)
            &&& b.logs@.contains(GameLog::Moved { player: a.current_player, position: target as usize })
            &&& b.players@[a.current_player as int].position == target
            &&& b.logs@[a.logs@.len() + 1int] == if target < from {
                GameLog::Credits { player: a.current_player, amount: 200 }
            } else {
                GameLog::Moved { player: a.current_player, position: target as usize }
            }
        },
{
    let from = a.players@[a.current_player as int].position as int;
    let target = crate::turn::flagship_after(from);
    let n = a.logs@.len() as int;
    let k = if target < from { n + 2 } else { n + 1 };
    assert(b.logs@[k] == GameLog::Moved { player: a.current_player, position: target as usize });
    assert(is_flagship(target));
}

/// After ending a turn that passes play on (no extra turn), the next player is
/// the first one after the current seat, going round the table, who is not
/// bankrupt: every seat passed over is bankrupt, and the new player is not
/// bankrupt whenever somebody else is still in the game.
pub proof fn lemma_turn_passes_to_next_player_in_game(a: Game, b: Game)
    requires
        a.wf(),
        end_turn_outcome(a, b, Ok(())),
        !a.extra_turn || a.players@[a.current_player as int].bankrupt,
        b.phase == Phase::AwaitRoll,
    ensures
        ({
            let n = a.players@.len() as int;
            let cur = a.current_player as int;
            let new = b.current_player as int;
            &&& 0 <= new < n
            &&& (exists|i: int| 0 <= i < n && i != cur && !(#[trigger] a.players@[i]).bankrupt) ==> !a.players@[new].bankrupt
            &&& forall|step: int| 1 <= step < (if new == cur { n } else { (new - cur + n) % n }) ==> (
            #[trigger] a.players@[(cur + step) % n]).bankrupt
            &&& b.round == if new <= cur { a.round + 1 } else { a.round as int }
        }),
{
    let n = a.players@.len() as int;
    let cur = a.current_player as int;
    lemma_seat_after(a.players@, cur, 1);
    let new = b.current_player as int;
    assert(new == crate::ending::next_seat(a.players@, cur));
    if exists|i: int| 0 <= i < n && i != cur && !(#[trigger] a.players@[i]).bankrupt {
        let i = choose|i: int| 0 <= i < n && i != cur && !(#[trigger] a.players@[i]).bankrupt;
        let step = if i > cur { i - cur } else { i - cur + n };
        lemma_wrap(cur + step, n);
        assert((cur + step) % n == i);
        if new == cur {
            assert(a.players@[(cur + step) % n].bankrupt);
        }
    }
    if new != cur {
        let s = choose|s: int| #![trigger a.players@[(cur + s) % n]] 1 <= s < n && new == (cur + s) % n && !a.players@[
            new].bankrupt && forall|q: int| 1 <= q < s ==> (#[trigger] a.players@[(cur + q) % n]).bankrupt;
        lemma_wrap(cur + s, n);
        lemma_wrap(new - cur + n, n);
        assert((new - cur + n) % n == s);
    }
}

/// Where play passes from `from`, looking from `step` on: the first seat that
/// is not bankrupt, with every seat looked at before it bankrupt; or `from`
/// when every seat looked at is bankrupt.
proof fn lemma_seat_after(players: Seq<Player>, from: int, step: int)
    requires
        0 <= from < players.len(),
        1 <= step,
    ensures
        ({
            let n = players.len() as int;
            let seat = crate::ending::seat_after(players, from, step);
            &&& 0 <= seat < n
            &&& seat == from ==> forall|s: int| step <= s < n ==> (#[trigger] players[(from + s) % n]).bankrupt
            &&& seat != from ==> exists|s: int| #![trigger players[(from + s) % n]] {
                &&& step <= s < n
                &&& seat == (from + s) % n
                &&& !players[seat].bankrupt
                &&& forall|q: int| step <= q < s ==> (#[trigger] players[(from + q) % n]).bankrupt
            }
        }),
    decreases players.len() - step,
{
    let n = players.len() as int;
    if step < n {
        lemma_seat_after(players, from, step + 1);
        let candidate = (from + step) % n;
        if players[candidate].bankrupt {
            let seat = crate::ending::seat_after(players, from, step + 1);
            if seat != from {
                let s = choose|s: int| #![trigger players[(from + s) % n]] {
                    &&& step + 1 <= s < n
                    &&& seat == (from + s) % n
                    &&& !players[seat].bankrupt
                    &&& forall|q: int| step + 1 <= q < s ==> (#[trigger] players[(from + q) % n]).bankrupt
                };
                assert forall|q: int| step <= q < s implies (#[trigger] players[(from + q) % n]).bankrupt by {
                    if q == step {
                    } else {
                    }
                }
            }
        } else {
            lemma_wrap(from + step, n);
        }
    }
}

/// Going round a table of `n` seats: a count below two rounds wraps once.
proof fn lemma_wrap(x: int, n: int)
    requires
        0 < n,
        0 <= x < 2 * n,
    ensures
        x % n == if x < n { x } else { x - n },
{
    if x < n {
        vstd::arithmetic::div_mod::lemma_small_mod(x as nat, n as nat);
    } else {
        vstd::arithmetic::div_mod::lemma_small_mod((x - n) as nat, n as nat);
        vstd::arithmetic::div_mod::lemma_mod_add_multiples_vanish(x - n, n);
    }
}

/// After doubles, a player still in the game ends the turn and rolls again:
/// the same player, in the same round.
pub proof fn lemma_extra_turn_keeps_the_player(a: Game, b: Game)
    requires
        a.wf(),
        end_turn_outcome(a, b, Ok(())),
        a.extra_turn,
        !a.players@[a.current_player as int].bankrupt,
    ensures
        b.current_player == a.current_player,
        b.round == a.round,
        b.phase == Phase::AwaitRoll,
        !b.extra_turn,
        b.players == a.players,
{
}

/// Paying to leave cooldown is refused outside a roll, to a player not in
/// cooldown (nothing changes), and to a player short of the 50 credits.
pub proof fn lemma_cooldown_fee_when(a: Game, b: Game, r: Result<(), GameError>)
    requires
        a.wf(),
        pay_cooldown_outcome(a, b, r),
    ensures
        (r is Ok) == (a.phase == Phase::AwaitRoll && a.players@[a.current_player as int].cooldown_turns > 0
            && a.players@[a.current_player as int].credits >= 50),
        r is Err ==> b == a,
        a.phase == Phase::AwaitRoll && a.players@[a.current_player as int].cooldown_turns > 0
            && a.players@[a.current_player as int].credits < 50 ==> r == Err::<(), GameError>(GameError::InsufficientFunds),
{
}

/// All the credits the players hold between them.
pub open spec fn credits_total(players: Seq<Player>) -> int
    decreases players.len(),
{
    if players.len() == 0 {
        0
    } else {
        credits_total(players.drop_last()) + players.last().credits
    }
}

/// Replacing one player changes the total by the change in their credits.
proof fn lemma_credits_total_update(players: Seq<Player>, p: int, q: Player)
    requires
        0 <= p < players.len(),
    ensures
        credits_total(players.update(p, q)) == credits_total(players) - players[p].credits + q.credits,
    decreases players.len(),
{
    let updated = players.update(p, q);
    if p == players.len() - 1 {
        assert(updated.drop_last() =~= players.drop_last());
    } else {
        lemma_credits_total_update(players.drop_last(), p, q);
        assert(updated.drop_last() =~= players.drop_last().update(p, q));
    }
}

/// Paying to leave cooldown costs the player exactly the fee of 50 credits and
/// touches nobody else's credits: all the players hold 50 credits fewer
/// between them.
pub proof fn lemma_cooldown_fee_is_paid(a: Game, b: Game)
    requires
        a.wf(),
        pay_cooldown_outcome(a, b, Ok(())),
    ensures
        b.players@.len() == a.players@.len(),
        b.players@[a.current_player as int].credits == a.players@[a.current_player as int].credits - 50,
        b.players@[a.current_player as int].cooldown_turns == 0,
        forall|i: int| 0 <= i < a.players@.len() && i != a.current_player ==> #[trigger] b.players@[i].credits
            == a.players@[i].credits,
        credits_total(b.players@) == credits_total(a.players@) - 50,
{
    let p = a.current_player as int;
    lemma_credits_total_update(a.players@, p, b.players@[p]);
    assert(b.players@ =~= a.players@.update(p, b.players@[p]));
}

/// Buying the model on offer costs the buyer exactly its price and makes them
/// its owner; it is refused, changing nothing, when they cannot afford it.
pub proof fn lemma_buying_costs_the_price(a: Game, b: Game, r: Result<(), GameError>)
    requires
        a.wf(),
        buy_outcome(a, b, r),
        a.phase is OfferPurchase,
    ensures
        ({
            let tile = a.phase->tile;
            let p = a.current_player as int;
            let price = price_of(parameters_of_tile(tile as int));
            &&& (r is Ok) == (a.players@[p].credits >= price)
            &&& r is Err ==> b == a
            &&& r is Ok ==> {
                &&& b.players@[p].credits == a.players@[p].credits - price
                &&& b.models@[tile].owner == Some(a.current_player)
                &&& forall|i: int| 0 <= i < a.players@.len() && i != p ==> #[trigger] b.players@[i] == a.players@[i]
                &&& b.phase == Phase::Manage
            }
        }),
{
    lemma_price_range(parameters_of_tile(a.phase->tile as int));
}

/// Using a bypass token spends exactly one token and ends the cooldown; it is
/// refused, changing nothing, to a player with no token or not in cooldown.
pub proof fn lemma_bypass_spends_one_token(a: Game, b: Game, r: Result<(), GameError>)
    requires
        a.wf(),
        bypass_outcome(a, b, r),
    ensures
        ({
            let p = a.current_player as int;
            &&& (r is Ok) == (a.phase == Phase::AwaitRoll && a.players@[p].cooldown_turns > 0
                && a.players@[p].bypass_tokens > 0)
            &&& r is Err ==> b == a
            &&& r is Ok ==> {
                &&& b.players@[p].bypass_tokens == a.players@[p].bypass_tokens - 1
                &&& b.players@[p].cooldown_turns == 0
                &&& b.players@[p].credits == a.players@[p].credits
            }
        }),
{
}

} // verus!
