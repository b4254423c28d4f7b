//! Moving around the board: landing on spaces, drawing cards, rolling dice.
use vstd::prelude::*;
use crate::catalog::{
    board_space, is_model_tile, space_at, Card, Difficulty, Space, BOARD_SIZE, COOLDOWN_FEE, PASS_START_BONUS,
};
use crate::rng::{die_face, next_state};
use crate::settlement::{bankruptcy_logged, debt_settled, heir, means, raised, same_holdings};
use crate::state::{
    alive_ids, owned_tiles_among, GameError, usage_fee,
    credit_growth, lemma_growth_by, lemma_growth_chain, lemma_growth_none, lemma_growth_weaken, log_extends,
    lemma_roster_chain, same_clock, same_roster, Game, GameLog, ModelState, Phase,
};

verus! {

/// When the current player of game `a` can meet a debt of `amount` (to
/// `creditor`, or to the bank), logged as `entry`: in game `b` they have sold
/// what the debt called for and paid it, nobody but them and the creditor is
/// touched, and nothing else has changed but the phase.
pub open spec fn paid_in_full(a: Game, b: Game, amount: int, creditor: Option<usize>, entry: GameLog) -> bool {
    let player = a.current_player as int;
    let p = a.players@[player];
    let r = raised(a.models@, p.credits as int, player, amount, 80);
    means(a, player) >= amount ==> {
        &&& b.models@ == r.0
        &&& b.players@.len() == a.players@.len()
        &&& b.players@[player] == (crate::state::Player { credits: (r.1 - amount) as i32, ..p })
        &&& forall|i: int| 0 <= i < a.players@.len() && i != player ==> #[trigger] b.players@[i] == (crate::state::Player {
            credits: b.players@[i].credits,
            ..a.players@[i]
        })
        &&& forall|i: int| 0 <= i < a.players@.len() && i != player && creditor != Some(i as usize)
            ==> #[trigger] b.players@[i] == a.players@[i]
        &&& b.logs@ == a.logs@.push(entry)
        &&& b == (Game { players: b.players, models: b.models, logs: b.logs, phase: b.phase, ..a })
    }
}

/// What landing on `position` (any space but a random-seed space) does to
/// game `a`, giving game `b`.
pub open spec fn landing_outcome(a: Game, b: Game, position: int) -> bool {
    let player = a.current_player;
    let n = a.logs@.len();
    &&& same_clock(a, b)
    &&& b.deck_index == a.deck_index
    &&& b.extra_turn == a.extra_turn || !b.extra_turn
    &&& match space_at(position as int) {
        Space::Model(t) => match a.models@[t].owner {
            None => b == (Game { phase: Phase::OfferPurchase { tile: t }, ..a }),
            Some(owner) => if owner == player || a.models@[t].archived {
                b == (Game { phase: Phase::Manage, ..a })
            } else {
                let fee = usage_fee(a.models@, t as int);
                &&& b.logs@.len() > n
                &&& b.logs@[n as int] == (GameLog::UsageFee { from: player, to: owner, amount: fee as i32 })
                &&& debt_settled(a, b, player as int, fee, Some(owner))
                &&& paid_in_full(a, b, fee, Some(owner), GameLog::UsageFee { from: player, to: owner, amount: fee as i32 })
                &&& means(a, player as int) < fee && a.phase != Phase::GameOver ==> b.phase == if alive_ids(
                    b.players@,
                ).len() == 1 {
                    Phase::GameOver
                } else {
                    Phase::Manage
                }
                &&& means(a, player as int) < fee ==> bankruptcy_logged(
                    a.logs@.push(GameLog::UsageFee { from: player, to: owner, amount: fee as i32 }),
                    b,
                    player,
                    Some(owner),
                )
                &&& means(a, player as int) >= fee ==> b.phase == if a.phase == Phase::GameOver {
                    a.phase
                } else {
                    Phase::Manage
                }
            },
        },
        Space::ComputeBill(amount) => {
            &&& b.logs@.len() > n
            &&& b.logs@[n as int] == (GameLog::ComputeBill { player, amount })
            &&& debt_settled(a, b, player as int, amount as int, None)
            &&& paid_in_full(a, b, amount as int, None, GameLog::ComputeBill { player, amount })
            &&& means(a, player as int) < amount && alive_ids(b.players@).len() > 1 && a.phase != Phase::GameOver
                && a.phase != Phase::Auction ==> b.phase == if a.auction is None && b.auction is Some {
                Phase::Auction
            } else {
                Phase::Manage
            }
            &&& means(a, player as int) < amount ==> bankruptcy_logged(
                a.logs@.push(GameLog::ComputeBill { player, amount }),
                b,
                player,
                None,
            )
            &&& means(a, player as int) >= amount ==> b.phase == if a.phase == Phase::GameOver || a.phase
                == Phase::Auction {
                a.phase
            } else {
                Phase::Manage
            }
        },
        Space::ContextOverflow => {
            &&& b.players@ == a.players@.update(player as int, crate::state::Player {
                position: crate::catalog::COOLDOWN_POSITION,
                cooldown_turns: 1,
                ..a.players@[player as int]
            })
            &&& b.logs@ == a.logs@.push(GameLog::CooldownStarted { player })
            &&& b == (Game { players: b.players, logs: b.logs, extra_turn: false, phase: Phase::Manage, ..a })
        },
        _ => b == (Game { phase: Phase::Manage, ..a }),
    }
}

impl Game {
    /// Handles landing on any space but a random-seed space.
    #[verifier::rlimit(50)]
    #[verifier::spinoff_prover]
    pub fn resolve_landing(&mut self, position: usize)
        requires
            old(self).wf(),
            old(self).no_bids(),
            position < BOARD_SIZE,
            position != 3 && position != 15,
            old(self).credits_at_most(i32::MAX - 11_000),
        ensures
            final(self).wf(),
            final(self).no_bids(),
            final(self).phase != Phase::AwaitRoll,
            credit_growth(*old(self), *final(self), 2_550),
            same_clock(*old(self), *final(self)),
            final(self).deck_index == old(self).deck_index,
            final(self).extra_turn == old(self).extra_turn || !final(self).extra_turn,
            same_roster(*old(self), *final(self)),
            log_extends(*old(self), *final(self)),
            landing_outcome(*old(self), *final(self), position as int),
    {
        let player = self.current_player;
        match board_space(position) {
            Space::Hub | Space::Cooldown | Space::CacheHit => {
                self.phase = Phase::Manage;
                proof { lemma_growth_none(*old(self), *self); lemma_growth_weaken(*old(self), *self, 0, 2_550); }
            },
            Space::ComputeBill(amount) => {
                self.logs.push(GameLog::ComputeBill { player, amount });
                let ghost logged = *self;
                proof { lemma_growth_none(*old(self), logged); }
                self.charge(player, amount, None);
                proof {
                    lemma_growth_chain(*old(self), logged, *self, 0, amount + 150);
                    lemma_growth_weaken(*old(self), *self, amount + 150, 2_550);
                }
                let ghost charged = *self;
                if self.phase != Phase::GameOver && self.phase != Phase::Auction {
                    self.phase = Phase::Manage;
                }
                proof {
                    assert(means(logged, player as int) == means(*old(self), player as int));
                    if means(logged, player as int) >= amount {
                        assert forall|i: int| 0 <= i < old(self).players@.len() && i != player implies #[trigger] self.players@[i]
                            == (crate::state::Player { credits: self.players@[i].credits, ..old(self).players@[i] }) by {
                            assert(charged.players@[i] == logged.players@[i]);
                        }
                        assert(self.players@[player as int] == (crate::state::Player {
                            credits: self.players@[player as int].credits,
                            ..old(self).players@[player as int]
                        }));
                        assert(paid_in_full(*old(self), *self, amount as int, None, GameLog::ComputeBill { player, amount }));
                    }
                    assert(landing_outcome(*old(self), *self, position as int));
                }
            },
            Space::ContextOverflow => {
                self.send_to_cooldown(player);
                self.extra_turn = false;
                self.phase = Phase::Manage;
                proof {
                    lemma_growth_none(*old(self), *self);
                    lemma_growth_weaken(*old(self), *self, 0, 2_550);
                    assert(self.players@ =~= old(self).players@.update(player as int, crate::state::Player {
                        position: crate::catalog::COOLDOWN_POSITION,
                        cooldown_turns: 1,
                        ..old(self).players@[player as int]
                    }));
                    assert(landing_outcome(*old(self), *self, position as int));
                }
            },
            Space::RandomSeed => {
                self.phase = Phase::Manage;
                proof { lemma_growth_none(*old(self), *self); lemma_growth_weaken(*old(self), *self, 0, 2_550); }
            },
            Space::Model(tile) => {
                let state = self.read_model(tile);
                assert(self.models@.contains_key(tile));
                match state.owner {
                    None => {
                        self.phase = Phase::OfferPurchase { tile };
                        proof { lemma_growth_none(*old(self), *self); lemma_growth_weaken(*old(self), *self, 0, 2_550); }
                    },
                    Some(owner) => {
                        if owner == player || state.archived {
                            self.phase = Phase::Manage;
                            proof { lemma_growth_none(*old(self), *self); lemma_growth_weaken(*old(self), *self, 0, 2_550); }
                        } else {
                            let fee = self.usage_fee_for(tile);
                            self.logs.push(GameLog::UsageFee { from: player, to: owner, amount: fee });
                            let ghost logged = *self;
                            proof { lemma_growth_none(*old(self), logged); }
                            self.charge(player, fee, Some(owner));
                            proof {
                                lemma_growth_chain(*old(self), logged, *self, 0, fee + 150);
                                lemma_growth_weaken(*old(self), *self, fee + 150, 2_550);
                            }
                            let ghost charged = *self;
                            if self.phase != Phase::GameOver {
                                self.phase = Phase::Manage;
                            }
                            proof {
                                assert(means(logged, player as int) == means(*old(self), player as int));
                                if means(logged, player as int) >= fee {
                                    assert forall|i: int| 0 <= i < old(self).players@.len() && i != player implies #[trigger] self.players@[i]
                                        == (crate::state::Player { credits: self.players@[i].credits, ..old(self).players@[i] }) by {
                                        assert(charged.players@[i].bankrupt == logged.players@[i].bankrupt);
                                    }
                                    assert(self.players@[player as int] == (crate::state::Player {
                                        credits: self.players@[player as int].credits,
                                        ..old(self).players@[player as int]
                                    }));
                                    assert(paid_in_full(*old(self), *self, fee as int, Some(owner), GameLog::UsageFee { from: player, to: owner, amount: fee }));
                                }
                                assert(landing_outcome(*old(self), *self, position as int));
                            }
                        }
                    },
                }
            },
        }
    }
}

} // verus!

verus! {

/// What seat `j` pays when every other player still in the game pays
/// `player` 25 credits: 25, or all their means when they fall short.
pub open spec fn levy(a: Game, player: int, j: int) -> int {
    if j != player && !a.players@[j].bankrupt {
        if means(a, j) >= 25 {
            25
        } else {
            means(a, j)
        }
    } else {
        0
    }
}

/// What the first `k` seats pay `player` in all.
pub open spec fn levies(a: Game, player: int, k: int) -> int
    decreases k,
{
    if k <= 0 {
        0
    } else {
        levies(a, player, k - 1) + levy(a, player, k - 1)
    }
}

/// How many of the first `k` seats, other than `player`, are still in the game.
pub open spec fn others_in_game(a: Game, player: int, k: int) -> int
    decreases k,
{
    if k <= 0 {
        0
    } else {
        others_in_game(a, player, k - 1) + if k - 1 != player && !a.players@[k - 1].bankrupt {
            1int
        } else {
            0int
        }
    }
}

/// The levies and head counts depend on the players and the models alone.
proof fn lemma_levies_frame(a: Game, b: Game, player: int, k: int)
    requires
        a.players == b.players,
        a.models == b.models,
    ensures
        levies(a, player, k) == levies(b, player, k),
        others_in_game(a, player, k) == others_in_game(b, player, k),
    decreases k,
{
    if k > 0 {
        lemma_levies_frame(a, b, player, k - 1);
        assert(means(a, k - 1) == means(b, k - 1));
    }
}

/// Seat `j` paid a levy of 25 credits to `player` from game `a` to game `b`:
/// they sold what raising 25 credits called for and paid, so their means went
/// down by 25; or, when they fell short, they were left with no credits and
/// their models passed to their heir.
pub open spec fn paid_levy(a: Game, b: Game, j: int, player: int) -> bool {
    let r = raised(a.models@, a.credits_of(j), j, 25, 80);
    if means(a, j) >= 25 {
        &&& means(b, j) == means(a, j) - 25
        &&& b.credits_of(j) == r.1 - 25
        &&& forall|t: usize| #[trigger] is_model_tile(t as int) && a.models@[t].owner == Some(j as usize)
            ==> b.models@[t] == r.0[t]
    } else {
        &&& b.credits_of(j) == 0
        &&& forall|t: usize| #[trigger] is_model_tile(t as int) && a.models@[t].owner == Some(j as usize)
            ==> b.models@[t].owner == crate::settlement::heir(a, j, Some(player as usize))
    }
}

/// Every other player still in the game paid `player` 25 credits, from game
/// `a` to game `b`; those who fell short went bankrupt.
pub open spec fn collected(a: Game, b: Game, player: int) -> bool {
    let n = a.players@.len() as int;
    &&& b.players@.len() == n
    &&& forall|j: int| 0 <= j < n && j != player ==> (#[trigger] b.players@[j]).bankrupt == (a.players@[j].bankrupt
        || means(a, j) < 25)
    &&& forall|j: int| 0 <= j < n && j != player && !a.players@[j].bankrupt ==> #[trigger] paid_levy(a, b, j, player)
    &&& b.players@[player].bankrupt == a.players@[player].bankrupt
    &&& !a.players@[player].bankrupt ==> b.credits_of(player) == a.credits_of(player) + levies(a, player, n)
}

/// No head count is negative.
proof fn lemma_others_nonneg(a: Game, player: int, k: int)
    ensures
        others_in_game(a, player, k) >= 0,
    decreases k,
{
    if k > 0 {
        lemma_others_nonneg(a, player, k - 1);
    }
}

/// The models and credits of `player` after paying 25 credits `count` times,
/// each time selling what raising the 25 credits called for.
pub open spec fn paid_times(models: Map<usize, ModelState>, credits: int, player: int, count: nat) -> (
    Map<usize, ModelState>,
    int,
)
    decreases count,
{
    if count == 0 {
        (models, credits)
    } else {
        let prev = paid_times(models, credits, player, (count - 1) as nat);
        let r = raised(prev.0, prev.1, player, 25, 80);
        (r.0, r.1 - 25)
    }
}

/// What seat `j` receives when `player` pays each other player still in the
/// game 25 credits in seat order: 25, what was left of `player`'s means when
/// they fell short at `j`, or nothing after that.
pub open spec fn share(a: Game, player: int, j: int) -> int {
    let left = means(a, player) - 25 * others_in_game(a, player, j);
    if left >= 25 {
        25
    } else if left > 0 {
        left
    } else {
        0
    }
}

/// `player` paid 25 credits to every other player still in the game, from
/// game `a` to game `b`, going bankrupt if their means fell short.
pub open spec fn paid_everyone(a: Game, b: Game, player: int) -> bool {
    let n = a.players@.len() as int;
    let owed = 25 * others_in_game(a, player, n);
    &&& b.players@.len() == n
    &&& forall|j: int| 0 <= j < n && j != player ==> (#[trigger] b.players@[j]).bankrupt == a.players@[j].bankrupt
    &&& !a.players@[player].bankrupt ==> b.players@[player].bankrupt == (means(a, player) < owed)
    &&& !a.players@[player].bankrupt && means(a, player) < owed ==> b.credits_of(player) == 0
    &&& !a.players@[player].bankrupt ==> forall|j: int| 0 <= j < n && j != player && !a.players@[j].bankrupt
        ==> #[trigger] b.credits_of(j) == a.credits_of(j) + share(a, player, j)
    &&& !a.players@[player].bankrupt && means(a, player) >= owed ==> {
        let paid = paid_times(a.models@, a.credits_of(player), player, others_in_game(a, player, n) as nat);
        &&& means(b, player) == means(a, player) - owed
        &&& b.models@ == paid.0
        &&& b.credits_of(player) == paid.1
        &&& forall|j: int| 0 <= j < n && j != player && !a.players@[j].bankrupt ==> #[trigger] b.credits_of(j)
            == a.credits_of(j) + 25
    }
}

impl Game {
    /// Every other player still in the game pays `player` 25 credits.
    fn collect_from_everyone(&mut self, player: usize)
        requires
            old(self).wf(),
            old(self).no_bids(),
            player < old(self).players@.len(),
            old(self).credits_at_most(i32::MAX - 11_000),
        ensures
            final(self).wf(),
            final(self).no_bids(),
            credit_growth(*old(self), *final(self), 700),
            crate::state::same_turn(*old(self), *final(self)),
            crate::state::same_people(*old(self), *final(self)),
            log_extends(*old(self), *final(self)),
            collected(*old(self), *final(self), player as int),
    {
        let n = self.players.len();
        let mut other: usize = 0;
        proof { lemma_growth_none(*old(self), *self); }
        while other < n
            invariant
                self.wf(),
                self.no_bids(),
                n == self.players@.len(),
                player < n,
                other <= n,
                n <= 4,
                credit_growth(*old(self), *self, 175 * other),
                old(self).credits_at_most(i32::MAX - 11_000),
                crate::state::same_turn(*old(self), *self),
                crate::state::same_people(*old(self), *self),
                log_extends(*old(self), *self),
                forall|j: int| 0 <= j < other && j != player ==> (#[trigger] self.players@[j]).bankrupt == (
                old(self).players@[j].bankrupt || means(*old(self), j) < 25),
                forall|j: int| other <= j < n && j != player ==> #[trigger] self.players@[j] == old(self).players@[j],
                forall|j: int| other <= j < n && j != player ==> #[trigger] means(*self, j) == means(*old(self), j),
                forall|j: int| other <= j < n && j != player ==> #[trigger] same_holdings(
                    self.models@,
                    old(self).models@,
                    j,
                ),
                forall|j: int| 0 <= j < other && j != player && !old(self).players@[j].bankrupt ==> #[trigger] paid_levy(
                    *old(self),
                    *self,
                    j,
                    player as int,
                ),
                self.players@[player as int].bankrupt == old(self).players@[player as int].bankrupt,
                !old(self).players@[player as int].bankrupt ==> self.credits_of(player as int) == old(self).credits_of(
                    player as int,
                ) + levies(*old(self), player as int, other as int),
            decreases n - other,
        {
            if other != player && !self.players[other].bankrupt {
                let ghost before = *self;
                assert(self.credits_at_most(i32::MAX - 11_000 + 175 * other));
                self.charge(other, 25, Some(player));
                proof {
                    assert(levies(*old(self), player as int, other + 1) == levies(*old(self), player as int, other as int)
                        + levy(*old(self), player as int, other as int));
                    lemma_growth_chain(*old(self), before, *self, 175 * other, 175);
                    assert forall|j: int| 0 <= j < n && j != other && j != player implies #[trigger] means(*self, j) == means(
                        before,
                        j,
                    ) && self.players@[j] == before.players@[j] by {
                        assert(self.players@[j] == before.players@[j]);
                        assert forall|t: usize| #[trigger] is_model_tile(t as int) && (before.models@[t].owner == Some(
                            j as usize,
                        ) || self.models@[t].owner == Some(j as usize)) implies before.models@[t] == self.models@[t] by {
                            if before.models@[t].owner == Some(other) {
                                assert(self.models@[t].owner != Some(j as usize));
                                assert(before.models@[t].owner != Some(j as usize));
                            }
                        }
                        crate::settlement::lemma_means_frame(before, *self, j);
                    }
                    assert forall|j: int| other < j < n && j != player implies #[trigger] same_holdings(
                        self.models@,
                        old(self).models@,
                        j,
                    ) by {
                        assert(same_holdings(before.models@, old(self).models@, j));
                        assert forall|t: usize| #[trigger] is_model_tile(t as int) && (self.models@[t].owner == Some(
                            j as usize,
                        ) || old(self).models@[t].owner == Some(j as usize)) implies self.models@[t] == old(self).models@[t] by {
                            if before.models@[t].owner == Some(other) {
                                assert(self.models@[t].owner != Some(j as usize));
                            }
                        }
                    }
                    let r_before = raised(before.models@, before.credits_of(other as int), other as int, 25, 80);
                    let r_old = raised(old(self).models@, old(self).credits_of(other as int), other as int, 25, 80);
                    assert(same_holdings(before.models@, old(self).models@, other as int));
                    crate::settlement::lemma_raised_frame(
                        before.models@,
                        old(self).models@,
                        old(self).credits_of(other as int),
                        other as int,
                        25,
                        80,
                    );
                    crate::settlement::lemma_raised_frame(
                        old(self).models@,
                        before.models@,
                        old(self).credits_of(other as int),
                        other as int,
                        25,
                        80,
                    );
                    assert forall|j: int| 0 <= j < other + 1 && j != player && !old(self).players@[j].bankrupt implies #[trigger] paid_levy(
                        *old(self),
                        *self,
                        j,
                        player as int,
                    ) by {
                        if j < other {
                            assert(paid_levy(*old(self), before, j, player as int));
                            assert(self.credits_of(j) == before.credits_of(j));
                            if means(*old(self), j) >= 25 {
                                let r = raised(old(self).models@, old(self).credits_of(j), j, 25, 80);
                                crate::settlement::lemma_raised_frame(
                                    old(self).models@,
                                    old(self).models@,
                                    old(self).credits_of(j),
                                    j,
                                    25,
                                    80,
                                );
                                assert forall|t: usize| #[trigger] is_model_tile(t as int) && old(self).models@[t].owner
                                    == Some(j as usize) implies self.models@[t] == r.0[t] by {
                                    assert(before.models@[t] == r.0[t]);
                                    assert(before.models@[t].owner == Some(j as usize));
                                }
                            }
                        } else {
                            if means(*old(self), j) >= 25 {
                                assert forall|t: usize| #[trigger] is_model_tile(t as int) && old(self).models@[t].owner
                                    == Some(j as usize) implies self.models@[t] == r_old.0[t] by {
                                    assert(r_old.0[t].owner == Some(j as usize));
                                    assert(self.models@[t] == r_before.0[t]);
                                }
                            }
                        }
                    }
                }
            } else {
                proof {
                    assert(levies(*old(self), player as int, other + 1) == levies(*old(self), player as int, other as int)
                        + levy(*old(self), player as int, other as int));
                    lemma_growth_none(*self, *self);
                    lemma_growth_chain(*old(self), *self, *self, 175 * other, 0);
                    lemma_growth_weaken(*old(self), *self, 175 * other, 175 * (other + 1));
                }
            }
            other = other + 1;
        }
        proof { lemma_growth_weaken(*old(self), *self, 175 * n, 700); }
    }

    /// `player` pays 25 credits to every other player still in the game,
    /// stopping if `player` goes bankrupt.
    fn pay_everyone(&mut self, player: usize)
        requires
            old(self).wf(),
            old(self).no_bids(),
            player < old(self).players@.len(),
            old(self).credits_at_most(i32::MAX - 11_000),
        ensures
            final(self).wf(),
            final(self).no_bids(),
            credit_growth(*old(self), *final(self), 700),
            crate::state::same_turn(*old(self), *final(self)),
            crate::state::same_people(*old(self), *final(self)),
            log_extends(*old(self), *final(self)),
            paid_everyone(*old(self), *final(self), player as int),
    {
        let n = self.players.len();
        let mut other: usize = 0;
        let ghost p = player as int;
        proof {
            lemma_growth_none(*old(self), *self);
            crate::settlement::lemma_liquid_nonneg(self.models@, p);
        }
        while other < n
            invariant
                self.wf(),
                self.no_bids(),
                n == self.players@.len(),
                player < n,
                p == player as int,
                other <= n,
                n <= 4,
                credit_growth(*old(self), *self, 175 * other),
                old(self).credits_at_most(i32::MAX - 11_000),
                crate::state::same_turn(*old(self), *self),
                crate::state::same_people(*old(self), *self),
                log_extends(*old(self), *self),
                forall|j: int| 0 <= j < n && j != p ==> (#[trigger] self.players@[j]).bankrupt
                    == old(self).players@[j].bankrupt,
                forall|j: int| other <= j < n && j != p ==> #[trigger] self.credits_of(j) == old(self).credits_of(j),
                old(self).players@[p].bankrupt ==> *self == *old(self),
                !old(self).players@[p].bankrupt ==> self.players@[p].bankrupt == (means(*old(self), p) < 25
                    * others_in_game(*old(self), p, other as int)),
                !old(self).players@[p].bankrupt && means(*old(self), p) < 25 * others_in_game(*old(self), p, other as int)
                    ==> self.credits_of(p) == 0,
                !old(self).players@[p].bankrupt ==> forall|j: int| 0 <= j < other && j != p && !old(self).players@[j].bankrupt
                    ==> #[trigger] self.credits_of(j) == old(self).credits_of(j) + share(*old(self), p, j),
                !old(self).players@[p].bankrupt && means(*old(self), p) >= 25 * others_in_game(*old(self), p, other as int)
                    ==> {
                    let paid = paid_times(
                        old(self).models@,
                        old(self).credits_of(p),
                        p,
                        others_in_game(*old(self), p, other as int) as nat,
                    );
                    &&& means(*self, p) == means(*old(self), p) - 25 * others_in_game(*old(self), p, other as int)
                    &&& self.models@ == paid.0
                    &&& self.credits_of(p) == paid.1
                    &&& forall|j: int| 0 <= j < other && j != p && !old(self).players@[j].bankrupt
                        ==> #[trigger] self.credits_of(j) == old(self).credits_of(j) + 25
                },
            decreases n - other,
        {
            proof {
                assert(others_in_game(*old(self), p, other + 1) == others_in_game(*old(self), p, other as int) + if other
                    != p && !old(self).players@[other as int].bankrupt {
                    1int
                } else {
                    0int
                });
            }
            if other != player && !self.players[other].bankrupt && !self.players[player].bankrupt {
                let ghost before = *self;
                assert(self.credits_at_most(i32::MAX - 11_000 + 175 * other));
                self.charge(player, 25, Some(other));
                proof {
                    lemma_growth_chain(*old(self), before, *self, 175 * other, 175);
                    assert forall|j: int| 0 <= j < n && j != p && j != other implies #[trigger] self.credits_of(j)
                        == before.credits_of(j) by {
                        assert(self.players@[j] == before.players@[j]);
                    }
                    let k = others_in_game(*old(self), p, other as int);
                    lemma_others_nonneg(*old(self), p, other as int);
                    assert(paid_times(old(self).models@, old(self).credits_of(p), p, (k + 1) as nat) == {
                        let prev = paid_times(old(self).models@, old(self).credits_of(p), p, k as nat);
                        let r = raised(prev.0, prev.1, p, 25, 80);
                        (r.0, r.1 - 25)
                    });
                }
            } else {
                proof {
                    lemma_growth_none(*self, *self);
                    lemma_growth_chain(*old(self), *self, *self, 175 * other, 0);
                    lemma_growth_weaken(*old(self), *self, 175 * other, 175 * (other + 1));
                }
            }
            other = other + 1;
        }
        proof { lemma_growth_weaken(*old(self), *self, 175 * n, 700); }
    }
}

} // verus!

verus! {

/// The space the advance-to-flagship card sends a player to from `position`:
/// the next of the four corner models, going round past the hub.
pub open spec fn flagship_after(position: int) -> int {
    if position < 5 {
        5
    } else if position < 11 {
        11
    } else if position < 17 {
        17
    } else if position < 23 {
        23
    } else {
        5
    }
}

/// What the card drawn does, from game `a` (before the draw) to game `b`.
pub open spec fn card_outcome(a: Game, b: Game) -> bool {
    let player = a.current_player;
    let p = a.players@[player as int];
    let n = a.logs@.len() as int;
    let card = a.deck@[a.deck_index as int];
    let drew = a.logs@.push(GameLog::Drew { player, card });
    let rest_kept = b == (Game { players: b.players, logs: b.logs, deck_index: b.deck_index, ..a });
    let gain = |amount: i32| {
        &&& b.players@ == a.players@.update(player as int, crate::state::Player { credits: (p.credits + amount) as i32, ..p })
        &&& b.logs@ == drew.push(GameLog::Credits { player, amount })
        &&& rest_kept
    };
    let pay = |amount: i32| {
        &&& debt_settled(a, b, player as int, amount as int, None)
        &&& means(a, player as int) < amount ==> bankruptcy_logged(drew, b, player, None)
        &&& means(a, player as int) < amount && alive_ids(b.players@).len() > 1 && a.phase != Phase::GameOver
            ==> b.phase == if a.auction is None && b.auction is Some {
            Phase::Auction
        } else {
            a.phase
        }
        &&& means(a, player as int) >= amount ==> {
            let r = raised(a.models@, p.credits as int, player as int, amount as int, 80);
            &&& b.models@ == r.0
            &&& b.players@ == a.players@.update(player as int, crate::state::Player { credits: (r.1 - amount) as i32, ..p })
            &&& b.logs@ == drew
            &&& b == (Game { players: b.players, models: b.models, logs: b.logs, deck_index: b.deck_index, ..a })
        }
    };
    &&& same_clock(a, b)
    &&& b.deck_index == (a.deck_index + 1) % (a.deck@.len() as int)
    &&& b.extra_turn == a.extra_turn || !b.extra_turn
    &&& match card {
        Card::Gain50 => gain(50),
        Card::Gain100 => gain(100),
        Card::Gain150 => gain(150),
        Card::Pay50 => pay(50),
        Card::Pay100 => pay(100),
        Card::AdvanceHub => {
            &&& b.players@ == a.players@.update(player as int, crate::state::Player {
                credits: (p.credits + PASS_START_BONUS) as i32,
                position: 0,
                ..p
            })
            &&& b.logs@ == drew.push(GameLog::Credits { player, amount: PASS_START_BONUS })
            &&& rest_kept
        },
        Card::AdvanceFlagship => {
            let target = flagship_after(p.position as int);
            let k = if target < p.position { n + 2 } else { n + 1 };
            &&& b.logs@.len() > k
            &&& b.logs@[k] == (GameLog::Moved { player, position: target as usize })
            &&& target < p.position ==> b.logs@[n + 1] == (GameLog::Credits { player, amount: PASS_START_BONUS })
            &&& exists|m: Game| #[trigger] jumped(a, m, target) && landing_outcome(m, b, target)
        },
        Card::BackThree => {
            let target = (p.position + 21) % 24;
            &&& b.logs@.len() > n + 1
            &&& b.logs@[n + 1] == (GameLog::Moved { player, position: target as usize })
            &&& exists|m: Game| #[trigger] jumped(a, m, target) && landing_outcome(m, b, target)
        },
        Card::EnterCooldown => {
            &&& b.players@ == a.players@.update(player as int, crate::state::Player {
                position: crate::catalog::COOLDOWN_POSITION,
                cooldown_turns: 1,
                ..p
            })
            &&& b.logs@ == drew.push(GameLog::CooldownStarted { player })
            &&& rest_kept
        },
        Card::BypassToken => {
            &&& b.players@ == a.players@.update(player as int, crate::state::Player {
                bypass_tokens: p.bypass_tokens.wrapping_add(1),
                ..p
            })
            &&& b.logs@ == drew
            &&& rest_kept
        },
        Card::Collect25Each => collected(a, b, player as int),
        Card::Pay25Each => paid_everyone(a, b, player as int),
    }
}

/// Game `m` is game `a` after the current player drew the next card and
/// jumped to `target`, collecting the pass-start bonus when that is behind
/// them and the card is not the step back.
pub open spec fn jumped(a: Game, m: Game, target: int) -> bool {
    let player = a.current_player;
    let p = a.players@[player as int];
    let card = a.deck@[a.deck_index as int];
    let passed = target < p.position && card != Card::BackThree;
    let drew = a.logs@.push(GameLog::Drew { player, card });
    &&& m.players@ == a.players@.update(player as int, crate::state::Player {
        position: target as usize,
        credits: if passed { (p.credits + PASS_START_BONUS) as i32 } else { p.credits },
        ..p
    })
    &&& m.logs@ == if passed {
        drew.push(GameLog::Credits { player, amount: PASS_START_BONUS })
    } else {
        drew
    }.push(GameLog::Moved { player, position: target as usize })
    &&& m.deck_index == (a.deck_index + 1) % (a.deck@.len() as int)
    &&& m == (Game { players: m.players, logs: m.logs, deck_index: m.deck_index, ..a })
}

impl Game {
    /// Draws the next random-seed card for the current player and applies it,
    /// wherever they stand; only a step back that would land on a random-seed
    /// space (from spaces 6 and 18) is left out, since the game draws only on
    /// those spaces and never reaches it.
    #[verifier::rlimit(30)]
    #[verifier::spinoff_prover]
    pub fn draw_card(&mut self)
        requires
            old(self).wf(),
            old(self).no_bids(),
            old(self).deck@[old(self).deck_index as int] == Card::BackThree ==> old(self).players@[old(
                self,
            ).current_player as int].position != 6 && old(self).players@[old(self).current_player as int].position
                != 18,
            old(self).credits_at_most(i32::MAX - 12_000),
        ensures
            final(self).wf(),
            final(self).no_bids(),
            credit_growth(*old(self), *final(self), 3_000),
            same_clock(*old(self), *final(self)),
            final(self).deck_index == (old(self).deck_index + 1) % (old(self).deck@.len() as int),
            final(self).extra_turn == old(self).extra_turn || !final(self).extra_turn,
            same_roster(*old(self), *final(self)),
            log_extends(*old(self), *final(self)),
            final(self).logs@.len() > old(self).logs@.len(),
            final(self).logs@[old(self).logs@.len() as int] == (GameLog::Drew {
                player: old(self).current_player,
                card: old(self).deck@[old(self).deck_index as int],
            }),
            card_outcome(*old(self), *final(self)),
    {
        let player = self.current_player;
        let card = self.deck[self.deck_index];
        let len = self.deck.len();
        self.deck_index = (self.deck_index + 1) % len;
        self.logs.push(GameLog::Drew { player, card });
        let ghost drawn = *self;
        proof { lemma_growth_none(*old(self), drawn); }
        match card {
            Card::Gain50 => {
                self.add_credits(player, 50);
                proof {
                    lemma_growth_by(drawn, *self, 3_000);
                    assert(same_roster(drawn, *self));
                    let p = old(self).players@[player as int];
                    assert(self.players@ =~= old(self).players@.update(player as int, crate::state::Player { credits: (p.credits + 50) as i32, ..p }));
                }
            },
            Card::Gain100 => {
                self.add_credits(player, 100);
                proof {
                    lemma_growth_by(drawn, *self, 3_000);
                    assert(same_roster(drawn, *self));
                    let p = old(self).players@[player as int];
                    assert(self.players@ =~= old(self).players@.update(player as int, crate::state::Player { credits: (p.credits + 100) as i32, ..p }));
                }
            },
            Card::Gain150 => {
                self.add_credits(player, 150);
                proof {
                    lemma_growth_by(drawn, *self, 3_000);
                    assert(same_roster(drawn, *self));
                    let p = old(self).players@[player as int];
                    assert(self.players@ =~= old(self).players@.update(player as int, crate::state::Player { credits: (p.credits + 150) as i32, ..p }));
                }
            },
            Card::Pay50 => {
                self.charge(player, 50, None);
                proof {
                    lemma_growth_weaken(drawn, *self, 200, 3_000);
                    assert(same_roster(drawn, *self));
                    assert(means(drawn, player as int) == means(*old(self), player as int));
                    if means(drawn, player as int) >= 50 {
                        let p = old(self).players@[player as int];
                        assert(self.players@ =~= old(self).players@.update(player as int, crate::state::Player { credits: self.players@[player as int].credits, ..p }));
                    }
                }
            },
            Card::Pay100 => {
                self.charge(player, 100, None);
                proof {
                    lemma_growth_weaken(drawn, *self, 250, 3_000);
                    assert(same_roster(drawn, *self));
                    assert(means(drawn, player as int) == means(*old(self), player as int));
                    if means(drawn, player as int) >= 100 {
                        let p = old(self).players@[player as int];
                        assert(self.players@ =~= old(self).players@.update(player as int, crate::state::Player { credits: self.players@[player as int].credits, ..p }));
                    }
                }
            },
            Card::Collect25Each => {
                self.collect_from_everyone(player);
                proof {
                    lemma_growth_weaken(drawn, *self, 700, 3_000);
                    assert(same_roster(drawn, *self));
                    let n = old(self).players@.len() as int;
                    lemma_levies_frame(*old(self), drawn, player as int, n);
                    assert forall|j: int| 0 <= j < n implies #[trigger] means(drawn, j) == means(*old(self), j) by {}
                    assert forall|j: int| 0 <= j < n && j != player && !old(self).players@[j].bankrupt implies #[trigger] paid_levy(
                        *old(self),
                        *self,
                        j,
                        player as int,
                    ) by {
                        assert(paid_levy(drawn, *self, j, player as int));
                        assert(means(drawn, j) == means(*old(self), j));
                    }
                }
            },
            Card::Pay25Each => {
                self.pay_everyone(player);
                proof {
                    lemma_growth_weaken(drawn, *self, 700, 3_000);
                    assert(same_roster(drawn, *self));
                    let n = old(self).players@.len() as int;
                    lemma_levies_frame(*old(self), drawn, player as int, n);
                    assert(means(drawn, player as int) == means(*old(self), player as int));
                    assert forall|j: int| 0 <= j < n implies #[trigger] share(drawn, player as int, j) == share(
                        *old(self),
                        player as int,
                        j,
                    ) by {
                        lemma_levies_frame(*old(self), drawn, player as int, j);
                    }
                }
            },
            Card::AdvanceHub => {
                self.players[player].position = 0;
                self.add_credits(player, PASS_START_BONUS);
                proof {
                    lemma_growth_by(drawn, *self, 3_000);
                    assert(same_roster(drawn, *self));
                    let p = old(self).players@[player as int];
                    assert(self.players@ =~= old(self).players@.update(player as int, crate::state::Player {
                        credits: (p.credits + PASS_START_BONUS) as i32,
                        position: 0,
                        ..p
                    }));
                }
            },
            Card::AdvanceFlagship => {
                let current = self.players[player].position;
                let target: usize = if current < 5 {
                    5
                } else if current < 11 {
                    11
                } else if current < 17 {
                    17
                } else if current < 23 {
                    23
                } else {
                    5
                };
                if target < current {
                    self.add_credits(player, PASS_START_BONUS);
                }
                self.players[player].position = target;
                self.logs.push(GameLog::Moved { player, position: target });
                let ghost moved = *self;
                proof {
                    lemma_growth_by(drawn, moved, 200);
                    let p = old(self).players@[player as int];
                    assert(moved.players@ =~= old(self).players@.update(player as int, crate::state::Player {
                        position: target,
                        credits: if target < current { (p.credits + PASS_START_BONUS) as i32 } else { p.credits },
                        ..p
                    }));
                    assert(jumped(*old(self), moved, target as int));
                }
                assert(target as int == flagship_after(old(self).players@[player as int].position as int));
                self.resolve_landing(target);
                proof {
                    lemma_growth_chain(drawn, moved, *self, 200, 2_550);
                    lemma_growth_weaken(drawn, *self, 2_750, 3_000);
                    assert(same_roster(drawn, moved));
                    lemma_roster_chain(drawn, moved, *self);
                }
            },
            Card::BackThree => {
                let target = (self.players[player].position + BOARD_SIZE - 3) % BOARD_SIZE;
                self.players[player].position = target;
                self.logs.push(GameLog::Moved { player, position: target });
                let ghost moved = *self;
                proof {
                    lemma_growth_by(drawn, moved, 0);
                    let p = old(self).players@[player as int];
                    assert(moved.players@ =~= old(self).players@.update(player as int, crate::state::Player {
                        position: target,
                        ..p
                    }));
                    assert(jumped(*old(self), moved, target as int));
                }
                self.resolve_landing(target);
                proof {
                    lemma_growth_chain(drawn, moved, *self, 0, 2_550);
                    lemma_growth_weaken(drawn, *self, 2_550, 3_000);
                    assert(same_roster(drawn, moved));
                    lemma_roster_chain(drawn, moved, *self);
                }
            },
            Card::EnterCooldown => {
                self.send_to_cooldown(player);
                proof {
                    lemma_growth_by(drawn, *self, 3_000);
                    assert(same_roster(drawn, *self));
                    let p = old(self).players@[player as int];
                    assert(self.players@ =~= old(self).players@.update(player as int, crate::state::Player {
                        position: crate::catalog::COOLDOWN_POSITION,
                        cooldown_turns: 1,
                        ..p
                    }));
                }
            },
            Card::BypassToken => {
                self.players[player].bypass_tokens = self.players[player].bypass_tokens.wrapping_add(1);
                proof {
                    lemma_growth_by(drawn, *self, 3_000);
                    assert(same_roster(drawn, *self));
                    let p = old(self).players@[player as int];
                    assert(self.players@ =~= old(self).players@.update(player as int, crate::state::Player {
                        bypass_tokens: p.bypass_tokens.wrapping_add(1),
                        ..p
                    }));
                }
            },
        }
        proof {
            lemma_growth_chain(*old(self), drawn, *self, 0, 3_000);
            assert(same_roster(*old(self), drawn));
            lemma_roster_chain(*old(self), drawn, *self);
        }
    }
}

} // verus!

verus! {

/// Game `m` is game `a` with its current player moved `amount` spaces on,
/// collecting the pass-start bonus when passing the hub.
pub open spec fn stepped(a: Game, m: Game, amount: int) -> bool {
    let player = a.current_player;
    let before = a.players@[player as int];
    let to = (before.position + amount) % 24;
    let passed = to < before.position;
    &&& m.players@ == a.players@.update(player as int, crate::state::Player {
        position: to as usize,
        credits: if passed { (before.credits + PASS_START_BONUS) as i32 } else { before.credits },
        ..before
    })
    &&& m.logs@ == if passed {
        a.logs@.push(GameLog::Credits { player, amount: PASS_START_BONUS })
    } else {
        a.logs@
    }.push(GameLog::Moved { player, position: to as usize })
    &&& m == (Game { players: m.players, logs: m.logs, ..a })
}

/// The phase after a card's effect: the game waits for the player's
/// management unless the card ended the game, started an auction or offered
/// a model.
pub open spec fn phase_after_card(phase: Phase) -> Phase {
    match phase {
        Phase::GameOver | Phase::Auction | Phase::OfferPurchase { .. } => phase,
        _ => Phase::Manage,
    }
}

/// Game `b` follows from game `a` by drawing the next card, applying it, and
/// moving on to the phase after it.
pub open spec fn card_resolved(a: Game, b: Game) -> bool {
    exists|m: Game| #[trigger] card_outcome(a, m) && b == (Game { phase: phase_after_card(m.phase), ..m })
}

/// In easy mode the human chooses their card and their roll among three.
pub open spec fn easy_human(g: Game) -> bool {
    g.config.difficulty == Difficulty::Easy && g.players@[g.current_player as int].is_human
}

/// What landing on `position` does, from game `a` to game `b`: a card for
/// the two card spaces, the space's own effect elsewhere.
pub open spec fn landed(a: Game, b: Game, position: int) -> bool {
    if position == 3 || position == 15 {
        if easy_human(a) {
            b == (Game { phase: Phase::ChooseCard, ..a })
        } else {
            card_resolved(a, b)
        }
    } else {
        landing_outcome(a, b, position)
    }
}

/// Game `b` follows from game `a` by moving the current player `amount`
/// spaces on and resolving the space reached.
pub open spec fn advanced_by(a: Game, b: Game, amount: int) -> bool {
    exists|m: Game| #[trigger] stepped(a, m, amount) && landed(
        m,
        b,
        (a.players@[a.current_player as int].position + amount) % 24,
    )
}

impl Game {
    /// Handles the current player landing on `position`.
    pub fn resolve_space(&mut self, position: usize)
        requires
            old(self).wf(),
            old(self).no_bids(),
            position < BOARD_SIZE,
            old(self).players@[old(self).current_player as int].position == position,
            old(self).credits_at_most(i32::MAX - 12_000),
        ensures
            final(self).wf(),
            final(self).no_bids(),
            final(self).phase != Phase::AwaitRoll,
            credit_growth(*old(self), *final(self), 3_000),
            same_clock(*old(self), *final(self)),
            final(self).extra_turn == old(self).extra_turn || !final(self).extra_turn,
            same_roster(*old(self), *final(self)),
            log_extends(*old(self), *final(self)),
            position == 3 || position == 15 ==> if easy_human(*old(self)) {
                *final(self) == (Game { phase: Phase::ChooseCard, ..*old(self) })
            } else {
                card_resolved(*old(self), *final(self))
            },
            position != 3 && position != 15 ==> landing_outcome(*old(self), *final(self), position as int),
    {
        let easy = match self.config.difficulty {
            Difficulty::Easy => true,
            Difficulty::Standard => false,
        };
        if (position == 3 || position == 15) && easy && self.players[self.current_player].is_human {
            self.phase = Phase::ChooseCard;
            proof { lemma_growth_none(*old(self), *self); lemma_growth_weaken(*old(self), *self, 0, 3_000); }
        } else if position == 3 || position == 15 {
            self.draw_card();
            let ghost drawn = *self;
            if self.phase != Phase::GameOver && self.phase != Phase::Auction && !matches!(self.phase, Phase::OfferPurchase { .. }) {
                self.phase = Phase::Manage;
            }
            proof {
                assert(card_outcome(*old(self), drawn));
                assert(*self == (Game { phase: phase_after_card(drawn.phase), ..drawn }));
            }
        } else {
            self.resolve_landing(position);
            proof { lemma_growth_weaken(*old(self), *self, 2_550, 3_000); }
        }
    }

    /// Moves the current player `amount` spaces, collecting the pass-start
    /// bonus when passing the hub, and resolves the space reached.
    pub fn move_by(&mut self, amount: u8)
        requires
            old(self).wf(),
            old(self).no_bids(),
            2 <= amount <= 12,
            old(self).credits_at_most(i32::MAX - 12_200),
        ensures
            final(self).wf(),
            final(self).no_bids(),
            final(self).phase != Phase::AwaitRoll,
            credit_growth(*old(self), *final(self), 3_200),
            same_clock(*old(self), *final(self)),
            final(self).extra_turn == old(self).extra_turn || !final(self).extra_turn,
            same_roster(*old(self), *final(self)),
            log_extends(*old(self), *final(self)),
            ({
                let player = old(self).current_player;
                let from = old(self).players@[player as int].position;
                let to = ((from + amount) % 24) as usize;
                if to < from {
                    &&& final(self).logs@.len() >= old(self).logs@.len() + 2
                    &&& final(self).logs@[old(self).logs@.len() as int] == (GameLog::Credits {
                        player,
                        amount: PASS_START_BONUS,
                    })
                    &&& final(self).logs@[old(self).logs@.len() + 1int] == (GameLog::Moved { player, position: to })
                } else {
                    &&& final(self).logs@.len() >= old(self).logs@.len() + 1
                    &&& final(self).logs@[old(self).logs@.len() as int] == (GameLog::Moved { player, position: to })
                }
            }),
            advanced_by(*old(self), *final(self), amount as int),
    {
        let player = self.current_player;
        let from = self.players[player].position;
        let to = (from + amount as usize) % BOARD_SIZE;
        if to < from {
            self.add_credits(player, PASS_START_BONUS);
        }
        self.players[player].position = to;
        self.logs.push(GameLog::Moved { player, position: to });
        let ghost moved = *self;
        proof {
            lemma_growth_by(*old(self), moved, 200);
            assert(same_roster(*old(self), moved));
        }
        proof {
            let p = old(self).players@[player as int];
            assert(moved.players@ =~= old(self).players@.update(player as int, crate::state::Player {
                position: to,
                credits: if to < from { (p.credits + PASS_START_BONUS) as i32 } else { p.credits },
                ..p
            }));
            assert(stepped(*old(self), moved, amount as int));
        }
        self.resolve_space(to);
        proof {
            lemma_growth_chain(*old(self), moved, *self, 200, 3_000);
            lemma_roster_chain(*old(self), moved, *self);
            assert(landed(moved, *self, to as int));
        }
    }
}

} // verus!

verus! {

/// A player as they start a roll: one in cooldown who holds a bypass token
/// spends it and leaves cooldown at once.
pub open spec fn at_roll(p: crate::state::Player) -> crate::state::Player {
    if p.cooldown_turns > 0 && p.bypass_tokens > 0 {
        crate::state::Player { cooldown_turns: 0, bypass_tokens: (p.bypass_tokens - 1) as u8, ..p }
    } else {
        p
    }
}

/// Game `m` is game `a` after rolling `first` and `second`, just before the
/// current player moves: out of cooldown if they were in it (by a bypass
/// token, on doubles, or after paying the fee on the third failed roll), with
/// the doubles streak counted.
pub open spec fn ready_to_move(a: Game, m: Game, first: u8, second: u8) -> bool {
    let player = a.current_player;
    let before = at_roll(a.players@[player as int]);
    &&& m.last_roll == Some((first, second))
    &&& m.rng.spec_state() == next_state(next_state(a.rng.spec_state()))
    &&& m.logs@ == a.logs@.push(GameLog::Rolled { player, first, second })
    &&& if before.cooldown_turns == 0 {
        &&& m.players@ == a.players@.update(player as int, before)
        &&& m.models == a.models
        &&& m.doubles_streak == if first == second { (a.doubles_streak + 1) as u8 } else { 0u8 }
        &&& m.extra_turn == (first == second)
    } else if first == second {
        &&& m.players@ == a.players@.update(player as int, crate::state::Player { cooldown_turns: 0, ..before })
        &&& m.models == a.models
        &&& m.doubles_streak == 0
        &&& !m.extra_turn
    } else {
        let r = raised(a.models@, before.credits as int, player as int, COOLDOWN_FEE as int, 80);
        &&& m.models@ == r.0
        &&& m.players@ == a.players@.update(
            player as int,
            crate::state::Player { credits: (r.1 - COOLDOWN_FEE) as i32, cooldown_turns: 0, ..before },
        )
        &&& m.doubles_streak == a.doubles_streak
        &&& m.extra_turn == a.extra_turn
    }
    &&& m == (Game {
        players: m.players,
        models: m.models,
        logs: m.logs,
        rng: m.rng,
        last_roll: m.last_roll,
        doubles_streak: m.doubles_streak,
        extra_turn: m.extra_turn,
        ..a
    })
}

/// After the cooldown fee was charged from game `a` to game `b`, with others
/// still in the game and no auction running, the game still waits on the
/// roller's turn.
proof fn lemma_fee_phase(a: Game, b: Game, player: int)
    requires
        a.phase == Phase::AwaitRoll,
        means(a, player) >= COOLDOWN_FEE ==> b == (Game { players: b.players, models: b.models, ..a }),
        ({
            &&& means(a, player) < COOLDOWN_FEE
            &&& a.phase != Phase::GameOver
            &&& alive_ids(b.players@).len() > 1
        }) ==> {
            let queue = a.pending_bank_auctions@ + if heir(a, player, None) is None {
                owned_tiles_among(a.models@, player, crate::catalog::MODEL_COUNT as int)
            } else {
                Seq::<usize>::empty()
            };
            &&& a.auction is Some ==> b.auction == a.auction && b.phase == a.phase
            &&& a.auction is None && queue.len() > 0 ==> b.auction is Some
            &&& a.auction is None && queue.len() == 0 ==> b.auction is None && b.phase == a.phase
        },
    ensures
        alive_ids(b.players@).len() > 1 && b.auction is None ==> b.phase == Phase::AwaitRoll,
        alive_ids(b.players@).len() > 1 && a.auction is None && a.pending_bank_auctions@.len() == 0
            && owned_tiles_among(a.models@, player, crate::catalog::MODEL_COUNT as int).len() == 0 ==> b.auction
            is None,
{
    let queue = a.pending_bank_auctions@ + if heir(a, player, None) is None {
        owned_tiles_among(a.models@, player, crate::catalog::MODEL_COUNT as int)
    } else {
        Seq::<usize>::empty()
    };
    if a.pending_bank_auctions@.len() == 0 && owned_tiles_among(a.models@, player, crate::catalog::MODEL_COUNT as int).len() == 0 {
        assert(queue.len() == 0);
    }
}

/// What a roll does to game `a`, giving game `b` and result `r`: the dice come
/// from the seeded generator; three doubles in a row send the player to
/// cooldown, and a player in cooldown spends a bypass token if they hold one,
/// and otherwise stays there until doubles or the third failed roll.
pub open spec fn roll_outcome(a: Game, b: Game, r: Result<(), GameError>) -> bool {
    &&& (a.phase != Phase::AwaitRoll ==> r == Err::<(), GameError>(GameError::InvalidPhase) && b == a)
    &&& (a.phase == Phase::AwaitRoll ==> {
        let player = a.current_player;
        let state = a.rng.spec_state();
        let first = die_face(state);
        let second = die_face(next_state(state));
        let before = at_roll(a.players@[player as int]);
        let after = b.players@[player as int];
        &&& r is Ok
        &&& b.last_roll == Some((first, second))
        &&& b.rng.spec_state() == next_state(next_state(state))
        &&& b.logs@.len() > a.logs@.len()
        &&& b.logs@[a.logs@.len() as int] == (GameLog::Rolled { player, first, second })
        &&& (before.cooldown_turns == 0 && first == second && a.doubles_streak >= 2 ==> {
            &&& after.position == crate::catalog::COOLDOWN_POSITION
            &&& after.cooldown_turns == 1
            &&& b.phase == Phase::Manage
            &&& !b.extra_turn
            &&& b.players@ == a.players@.update(player as int, crate::state::Player {
                position: crate::catalog::COOLDOWN_POSITION,
                cooldown_turns: 1,
                ..before
            })
            &&& b.logs@ == a.logs@.push(GameLog::Rolled { player, first, second }).push(
                GameLog::CooldownStarted { player },
            )
            &&& b.doubles_streak == a.doubles_streak + 1
            &&& b == (Game {
                players: b.players,
                logs: b.logs,
                rng: b.rng,
                last_roll: b.last_roll,
                doubles_streak: b.doubles_streak,
                extra_turn: false,
                phase: Phase::Manage,
                ..a
            })
        })
        &&& (before.cooldown_turns > 0 && first != second && before.cooldown_turns < 3 ==> {
            &&& after.position == before.position
            &&& after.cooldown_turns == before.cooldown_turns + 1
            &&& after.credits == before.credits
            &&& b.phase == Phase::Manage
            &&& b.players@ == a.players@.update(player as int, crate::state::Player {
                cooldown_turns: (before.cooldown_turns + 1) as u8,
                ..before
            })
            &&& b.logs@ == a.logs@.push(GameLog::Rolled { player, first, second })
            &&& b == (Game {
                players: b.players,
                logs: b.logs,
                rng: b.rng,
                last_roll: b.last_roll,
                phase: Phase::Manage,
                ..a
            })
        })
        &&& (3 <= before.cooldown_turns < 255 && first != second && (before.bankrupt || means(a, player as int)
            < COOLDOWN_FEE) ==> {
            &&& after.bankrupt
            &&& after.position == before.position
            &&& debt_settled(a, b, player as int, COOLDOWN_FEE as int, None)
            &&& if means(a, player as int) < COOLDOWN_FEE {
                bankruptcy_logged(a.logs@.push(GameLog::Rolled { player, first, second }), b, player, None)
            } else {
                b.logs@ == a.logs@.push(GameLog::Rolled { player, first, second })
            }
            &&& after.cooldown_turns == before.cooldown_turns + 1
            &&& b == (Game {
                players: b.players,
                models: b.models,
                logs: b.logs,
                rng: b.rng,
                last_roll: b.last_roll,
                phase: b.phase,
                auction: b.auction,
                pending_bank_auctions: b.pending_bank_auctions,
                winners: b.winners,
                ..a
            })
            &&& b.phase == Phase::GameOver || b.phase == Phase::Auction || b.phase == Phase::Manage
            &&& alive_ids(b.players@).len() > 1 && b.auction is None ==> b.phase == Phase::Manage
            &&& alive_ids(b.players@).len() > 1 && a.auction is None && a.pending_bank_auctions@.len() == 0
                && owned_tiles_among(a.models@, player as int, crate::catalog::MODEL_COUNT as int).len() == 0 ==> {
                &&& b.auction is None
                &&& b.phase == Phase::Manage
            }
        })
        &&& ({
            let n = a.logs@.len() as int;
            let to = ((before.position + first + second) % 24) as usize;
            let at = if to < before.position { n + 2 } else { n + 1 };
            let moves = if before.cooldown_turns == 0 {
                !(first == second && a.doubles_streak >= 2)
            } else {
                first == second || (3 <= before.cooldown_turns < 255 && !before.bankrupt && means(
                    a,
                    player as int,
                ) >= COOLDOWN_FEE)
            };
            moves ==> {
                &&& exists|m: Game| #[trigger] advanced_by(m, b, first + second) && ready_to_move(a, m, first, second)
                &&& b.logs@.len() > at
                &&& b.logs@[at] == (GameLog::Moved { player, position: to })
                &&& (to < before.position ==> b.logs@[n + 1] == (GameLog::Credits { player, amount: PASS_START_BONUS }))
            }
        })
        &&& (before.cooldown_turns == 0 && first != second ==> b.doubles_streak == 0 && !b.extra_turn)
        &&& (before.cooldown_turns > 0 && first == second ==> b.doubles_streak == 0 && !b.extra_turn)
        &&& (before.cooldown_turns == 0 && first == second && a.doubles_streak < 2 ==> b.doubles_streak
            == a.doubles_streak + 1)
    })
}

/// What paying the cooldown fee does to game `a`, giving game `b` and result `r`.
pub open spec fn pay_cooldown_outcome(a: Game, b: Game, r: Result<(), GameError>) -> bool {
    let p = a.players@[a.current_player as int];
    if a.phase != Phase::AwaitRoll || p.cooldown_turns == 0 {
        r == Err::<(), GameError>(GameError::InvalidPhase) && b == a
    } else if p.credits < COOLDOWN_FEE {
        r == Err::<(), GameError>(GameError::InsufficientFunds) && b == a
    } else {
        &&& r is Ok
        &&& b.players@ == a.players@.update(
            a.current_player as int,
            crate::state::Player { credits: (p.credits - COOLDOWN_FEE) as i32, cooldown_turns: 0, ..p },
        )
        &&& b.players@.len() == a.players@.len()
        &&& b == (Game { players: b.players, ..a })
    }
}

/// What spending a bypass token does to game `a`, giving game `b` and result `r`.
pub open spec fn bypass_outcome(a: Game, b: Game, r: Result<(), GameError>) -> bool {
    let p = a.players@[a.current_player as int];
    if a.phase != Phase::AwaitRoll || p.cooldown_turns == 0 || p.bypass_tokens == 0 {
        r == Err::<(), GameError>(GameError::InvalidPhase) && b == a
    } else {
        &&& r is Ok
        &&& b.players@ == a.players@.update(
            a.current_player as int,
            crate::state::Player { bypass_tokens: (p.bypass_tokens - 1) as u8, cooldown_turns: 0, ..p },
        )
        &&& b == (Game { players: b.players, ..a })
    }
}

impl Game {
    /// Rolls two dice for the current player and plays out the roll.
    #[verifier::rlimit(60)]
    #[verifier::spinoff_prover]
    pub fn roll(&mut self) -> (result: Result<(), GameError>)
        requires
            old(self).wf(),
            old(self).credits_at_most(i32::MAX - 13_000),
        ensures
            final(self).wf(),
            roll_outcome(*old(self), *final(self), result),
            credit_growth(*old(self), *final(self), 3_500),
            same_roster(*old(self), *final(self)),
            log_extends(*old(self), *final(self)),
            final(self).config == old(self).config,
            final(self).deck == old(self).deck,
            final(self).current_player == old(self).current_player,
            final(self).round == old(self).round,
    {
        if self.phase != Phase::AwaitRoll {
            return Err(GameError::InvalidPhase);
        }
        let player = self.current_player;
        if self.players[player].cooldown_turns > 0 && self.players[player].bypass_tokens > 0 {
            self.players[player].bypass_tokens = self.players[player].bypass_tokens - 1;
            self.players[player].cooldown_turns = 0;
        }
        let ghost started = *self;
        proof {
            assert(started.players@ =~= old(self).players@.update(player as int, at_roll(old(self).players@[player as int])));
            lemma_growth_none(*old(self), started);
        }
        let first = self.rng.die();
        let second = self.rng.die();
        self.last_roll = Some((first, second));
        self.logs.push(GameLog::Rolled { player, first, second });
        let ghost rolled = *self;
        proof {
            lemma_growth_none(*old(self), rolled);
        }
        let doubles = first == second;
        if self.players[player].cooldown_turns > 0 {
            if doubles {
                self.players[player].cooldown_turns = 0;
                self.extra_turn = false;
                self.doubles_streak = 0;
                let ghost freed = *self;
                proof { lemma_growth_none(*old(self), freed); }
                self.move_by(first + second);
                proof {
                    assert(freed.players@ =~= old(self).players@.update(player as int, crate::state::Player {
                        cooldown_turns: 0,
                        ..old(self).players@[player as int]
                    }));
                    assert(ready_to_move(*old(self), freed, first, second));
                    assert(advanced_by(freed, *self, first + second));
                    lemma_growth_chain(*old(self), freed, *self, 0, 3_200);
                    lemma_growth_weaken(*old(self), *self, 3_200, 3_500);
                    assert(same_roster(*old(self), freed));
                    lemma_roster_chain(*old(self), freed, *self);
                }
                return Ok(());
            }
            self.players[player].cooldown_turns = self.players[player].cooldown_turns.wrapping_add(1);
            if self.players[player].cooldown_turns > 3 {
                let ghost waited = *self;
                proof { lemma_growth_none(*old(self), waited); }
                assert(means(waited, player as int) == means(*old(self), player as int));
                self.charge(player, COOLDOWN_FEE, None);
                let ghost charged = *self;
                proof {
                    lemma_growth_chain(*old(self), waited, charged, 0, 200);
                    assert(same_roster(*old(self), waited));
                    lemma_roster_chain(*old(self), waited, charged);
                }
                if !self.players[player].bankrupt {
                    self.players[player].cooldown_turns = 0;
                    let ghost released = *self;
                    proof {
                        lemma_growth_chain(*old(self), charged, released, 200, 0);
                        lemma_growth_none(charged, released);
                        lemma_growth_chain(*old(self), charged, released, 200, 0);
                        assert(same_roster(charged, released));
                        lemma_roster_chain(*old(self), charged, released);
                    }
                    self.move_by(first + second);
                    proof {
                        assert(released.players@ =~= old(self).players@.update(player as int, crate::state::Player {
                            credits: released.players@[player as int].credits,
                            cooldown_turns: 0,
                            ..old(self).players@[player as int]
                        }));
                        assert(ready_to_move(*old(self), released, first, second));
                        assert(advanced_by(released, *self, first + second));
                        lemma_growth_chain(*old(self), released, *self, 200, 3_200);
                        lemma_growth_weaken(*old(self), *self, 3_400, 3_500);
                        lemma_roster_chain(*old(self), released, *self);
                    }
                } else {
                    proof { lemma_fee_phase(waited, charged, player as int); }
                    if self.phase != Phase::GameOver && self.phase != Phase::Auction {
                        self.phase = Phase::Manage;
                    }
                    proof { lemma_growth_weaken(*old(self), *self, 200, 3_500); }
                }
            } else {
                self.phase = Phase::Manage;
                proof { lemma_growth_by(*old(self), *self, 3_500); }
            }
            return Ok(());
        }
        if doubles {
            self.doubles_streak = self.doubles_streak + 1;
            self.extra_turn = true;
            if self.doubles_streak >= 3 {
                self.extra_turn = false;
                self.phase = Phase::Manage;
                self.send_to_cooldown(player);
                proof {
                    lemma_growth_by(*old(self), *self, 3_500);
                    assert(self.players@ =~= old(self).players@.update(player as int, crate::state::Player {
                        position: crate::catalog::COOLDOWN_POSITION,
                        cooldown_turns: 1,
                        ..at_roll(old(self).players@[player as int])
                    }));
                }
                return Ok(());
            }
        } else {
            self.doubles_streak = 0;
            self.extra_turn = false;
        }
        let ghost ready = *self;
        proof { lemma_growth_none(*old(self), ready); }
        self.move_by(first + second);
        proof {
            assert(ready_to_move(*old(self), ready, first, second));
            assert(advanced_by(ready, *self, first + second));
            lemma_growth_chain(*old(self), ready, *self, 0, 3_200);
            lemma_growth_weaken(*old(self), *self, 3_200, 3_500);
            assert(same_roster(*old(self), ready));
            lemma_roster_chain(*old(self), ready, *self);
        }
        Ok(())
    }

    /// Pays the cooldown fee to leave cooldown before rolling.
    pub fn pay_cooldown(&mut self) -> (result: Result<(), GameError>)
        requires
            old(self).wf(),
        ensures
            final(self).wf(),
            pay_cooldown_outcome(*old(self), *final(self), result),
    {
        let player = self.current_player;
        if self.phase != Phase::AwaitRoll || self.players[player].cooldown_turns == 0 {
            return Err(GameError::InvalidPhase);
        }
        if self.players[player].credits < COOLDOWN_FEE {
            return Err(GameError::InsufficientFunds);
        }
        self.players[player].credits = self.players[player].credits - COOLDOWN_FEE;
        self.players[player].cooldown_turns = 0;
        let ghost p = old(self).players@[player as int];
        assert(self.players@ =~= old(self).players@.update(
            player as int,
            crate::state::Player { credits: (p.credits - COOLDOWN_FEE) as i32, cooldown_turns: 0, ..p },
        ));
        Ok(())
    }

    /// Spends a bypass token to leave cooldown before rolling.
    pub fn use_bypass(&mut self) -> (result: Result<(), GameError>)
        requires
            old(self).wf(),
        ensures
            final(self).wf(),
            bypass_outcome(*old(self), *final(self), result),
    {
        let player = self.current_player;
        if self.phase != Phase::AwaitRoll || self.players[player].cooldown_turns == 0
            || self.players[player].bypass_tokens == 0 {
            return Err(GameError::InvalidPhase);
        }
        self.players[player].bypass_tokens = self.players[player].bypass_tokens - 1;
        self.players[player].cooldown_turns = 0;
        let ghost p = old(self).players@[player as int];
        assert(self.players@ =~= old(self).players@.update(
            player as int,
            crate::state::Player { bypass_tokens: (p.bypass_tokens - 1) as u8, cooldown_turns: 0, ..p },
        ));
        Ok(())
    }
}

} // verus!

verus! {

/// What choosing card `k` (0, 1 or 2) among the next three does to game `a`,
/// giving game `b` and result `r`: the chosen card is swapped with the next
/// one in the deck, then drawn and applied.
#[verifier::opaque]
pub open spec fn pick_card_outcome(a: Game, b: Game, k: u8, r: Result<(), GameError>) -> bool {
    let position = a.players@[a.current_player as int].position;
    if a.phase != Phase::ChooseCard || !(position == 3 || position == 15) || !a.no_bids() {
        r == Err::<(), GameError>(GameError::InvalidPhase) && b == a
    } else if k >= 3 {
        crate::market::invalid_action(r, "choose one of the three cards"@) && b == a
    } else {
        let i = a.deck_index as int;
        let j = (i + k) % (a.deck@.len() as int);
        &&& r is Ok
        &&& exists|m: Game| #[trigger] card_resolved(m, b) && m.deck@ == a.deck@.update(i, a.deck@[j]).update(
            j,
            a.deck@[i],
        ) && m == (Game { deck: m.deck, ..a })
    }
}

/// What choosing roll `k` (0, 1 or 2) among the next three does to game `a`,
/// giving game `b` and result `r`: the dice of the earlier rolls are passed
/// over, and the chosen one is rolled.
#[verifier::opaque]
pub open spec fn pick_roll_outcome(a: Game, b: Game, k: u8, r: Result<(), GameError>) -> bool {
    if a.phase != Phase::AwaitRoll || !easy_human(a) {
        r == Err::<(), GameError>(GameError::InvalidPhase) && b == a
    } else if k >= 3 {
        crate::market::invalid_action(r, "choose one of the three rolls"@) && b == a
    } else {
        exists|m: Game| #[trigger] roll_outcome(m, b, r) && m.rng.spec_state() == crate::setup::advanced(
            a.rng.spec_state(),
            (2 * k) as nat,
        ) && m == (Game { rng: m.rng, ..a })
    }
}

impl Game {
    /// The three rolls an easy-mode human chooses from.
    pub fn roll_options(&self) -> (options: Vec<(u8, u8)>)
        ensures
            options@.len() == 3,
            forall|k: int| 0 <= k < 3 ==> #[trigger] options@[k] == (
                die_face(crate::setup::advanced(self.rng.spec_state(), (2 * k) as nat)),
                die_face(crate::setup::advanced(self.rng.spec_state(), (2 * k + 1) as nat)),
            ),
    {
        let mut rng = self.rng;
        let mut options: Vec<(u8, u8)> = Vec::new();
        let mut k: usize = 0;
        while k < 3
            invariant
                k <= 3,
                options@.len() == k,
                rng.spec_state() == crate::setup::advanced(self.rng.spec_state(), (2 * k) as nat),
                forall|j: int| 0 <= j < k ==> #[trigger] options@[j] == (
                    die_face(crate::setup::advanced(self.rng.spec_state(), (2 * j) as nat)),
                    die_face(crate::setup::advanced(self.rng.spec_state(), (2 * j + 1) as nat)),
                ),
            decreases 3 - k,
        {
            let first = rng.die();
            let second = rng.die();
            proof {
                assert(crate::setup::advanced(self.rng.spec_state(), (2 * k + 1) as nat) == next_state(
                    crate::setup::advanced(self.rng.spec_state(), (2 * k) as nat),
                ));
                assert(crate::setup::advanced(self.rng.spec_state(), (2 * (k + 1)) as nat) == next_state(
                    crate::setup::advanced(self.rng.spec_state(), (2 * k + 1) as nat),
                ));
            }
            options.push((first, second));
            k = k + 1;
        }
        options
    }

    /// The three cards an easy-mode human chooses from: the next three in
    /// the deck, going round.
    pub fn card_options(&self) -> (options: Vec<Card>)
        requires
            self.wf(),
        ensures
            options@.len() == 3,
            forall|k: int| 0 <= k < 3 ==> #[trigger] options@[k] == self.deck@[(self.deck_index + k) % (
            self.deck@.len() as int)],
    {
        let len = self.deck.len();
        let mut options: Vec<Card> = Vec::new();
        let mut k: usize = 0;
        while k < 3
            invariant
                self.wf(),
                len == self.deck@.len(),
                k <= 3,
                options@.len() == k,
                forall|j: int| 0 <= j < k ==> #[trigger] options@[j] == self.deck@[(self.deck_index + j) % (len as int)],
            decreases 3 - k,
        {
            let at = ((self.deck_index as u128 + k as u128) % (len as u128)) as usize;
            options.push(self.deck[at]);
            k = k + 1;
        }
        options
    }

    /// Chooses card `k` among the next three and applies it.
    pub fn pick_card(&mut self, k: u8) -> (result: Result<(), GameError>)
        requires
            old(self).wf(),
            old(self).credits_at_most(i32::MAX - 12_000),
        ensures
            final(self).wf(),
            pick_card_outcome(*old(self), *final(self), k, result),
            result is Err ==> *final(self) == *old(self),
            credit_growth(*old(self), *final(self), 3_000),
            log_extends(*old(self), *final(self)),
            same_roster(*old(self), *final(self)),
    {
        proof { reveal(pick_card_outcome); }
        let player = self.current_player;
        let position = self.players[player].position;
        let bid = match &self.auction {
            Some(a) => a.high_bidder.is_some(),
            None => false,
        };
        if self.phase != Phase::ChooseCard || !(position == 3 || position == 15) || bid {
            return Err(GameError::InvalidPhase);
        }
        if k >= 3 {
            return Err(GameError::InvalidAction(String::from_str("choose one of the three cards")));
        }
        let len = self.deck.len();
        let i = self.deck_index;
        let j = ((i as u128 + k as u128) % (len as u128)) as usize;
        let first = self.deck[i];
        let chosen = self.deck[j];
        self.deck.set(i, chosen);
        self.deck.set(j, first);
        let ghost swapped = *self;
        proof {
            lemma_growth_none(*old(self), swapped);
            assert(swapped.deck@ == old(self).deck@.update(i as int, old(self).deck@[j as int]).update(
                j as int,
                old(self).deck@[i as int],
            ));
        }
        self.draw_card();
        let ghost drawn = *self;
        if self.phase != Phase::GameOver && self.phase != Phase::Auction && !matches!(self.phase, Phase::OfferPurchase { .. }) {
            self.phase = Phase::Manage;
        }
        proof {
            assert(card_outcome(swapped, drawn));
            assert(*self == (Game { phase: phase_after_card(drawn.phase), ..drawn }));
            assert(card_resolved(swapped, *self));
            lemma_growth_chain(*old(self), swapped, *self, 0, 3_000);
            lemma_roster_chain(*old(self), swapped, *self);
        }
        Ok(())
    }

    /// Chooses roll `k` among the next three and plays it out.
    pub fn pick_roll(&mut self, k: u8) -> (result: Result<(), GameError>)
        requires
            old(self).wf(),
            old(self).credits_at_most(i32::MAX - 13_000),
        ensures
            final(self).wf(),
            pick_roll_outcome(*old(self), *final(self), k, result),
            result is Err ==> *final(self) == *old(self),
            credit_growth(*old(self), *final(self), 3_500),
            log_extends(*old(self), *final(self)),
            same_roster(*old(self), *final(self)),
    {
        proof { reveal(pick_roll_outcome); }
        let easy = match self.config.difficulty {
            Difficulty::Easy => true,
            Difficulty::Standard => false,
        };
        if self.phase != Phase::AwaitRoll || !easy || !self.players[self.current_player].is_human {
            return Err(GameError::InvalidPhase);
        }
        if k >= 3 {
            return Err(GameError::InvalidAction(String::from_str("choose one of the three rolls")));
        }
        let mut n: u8 = 0;
        while n < 2 * k
            invariant
                n <= 2 * k,
                k < 3,
                self.rng.spec_state() == crate::setup::advanced(old(self).rng.spec_state(), n as nat),
                *self == (Game { rng: self.rng, ..*old(self) }),
            decreases 2 * k - n,
        {
            self.rng.die();
            n = n + 1;
        }
        let ghost skipped = *self;
        proof { lemma_growth_none(*old(self), skipped); }
        let result = self.roll();
        proof {
            assert(roll_outcome(skipped, *self, result));
            lemma_growth_chain(*old(self), skipped, *self, 0, 3_500);
            lemma_roster_chain(*old(self), skipped, *self);
        }
        result
    }
}

} // verus!
