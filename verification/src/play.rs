//! The single entry point through which players and bots act on a game.
use vstd::prelude::*;
use crate::ending::end_turn_outcome;
use crate::market::{
    allocate_outcome, archive_outcome, bid_outcome, buy_outcome, decline_outcome, pass_outcome,
    release_outcome, restore_outcome,
};
use crate::state::{credit_growth, log_extends, same_roster, Action, Game, GameError, Phase};
use crate::state::lemma_growth_by;
use crate::catalog::{lemma_price_range, parameters_of_tile};
use crate::turn::{bypass_outcome, pay_cooldown_outcome, roll_outcome};

verus! {

/// What applying `action` to game `a` does, giving game `b` and result `r`.
pub open spec fn apply_outcome(a: Game, b: Game, action: Action, r: Result<(), GameError>) -> bool {
    if a.phase == Phase::GameOver {
        r == Err::<(), GameError>(GameError::InvalidPhase) && b == a
    } else {
        match action {
            Action::Roll => roll_outcome(a, b, r),
            Action::PayCooldown => pay_cooldown_outcome(a, b, r),
            Action::UseBypass => bypass_outcome(a, b, r),
            Action::Buy => buy_outcome(a, b, r),
            Action::Decline => decline_outcome(a, b, r),
            Action::AuctionBid(amount) => bid_outcome(a, b, amount, r),
            Action::AuctionPass => pass_outcome(a, b, r),
            Action::AllocateTensor(tile) => allocate_outcome(a, b, tile, r),
            Action::ReleaseTensor(tile) => release_outcome(a, b, tile, r),
            Action::Archive(tile) => archive_outcome(a, b, tile, r),
            Action::Restore(tile) => restore_outcome(a, b, tile, r),
            Action::EndTurn => end_turn_outcome(a, b, r),
            Action::PickRoll(k) => crate::turn::pick_roll_outcome(a, b, k, r),
            Action::PickCard(k) => crate::turn::pick_card_outcome(a, b, k, r),
        }
    }
}

impl Game {
    /// Applies an action of the player whose move it is. A finished game
    /// accepts nothing, and an action that is refused leaves the game as it was.
    pub fn apply(&mut self, action: Action) -> (result: Result<(), GameError>)
        requires
            old(self).wf(),
            old(self).credits_at_most(i32::MAX - 13_000),
        ensures
            final(self).wf(),
            apply_outcome(*old(self), *final(self), action, result),
            result is Err ==> *final(self) == *old(self),
            credit_growth(*old(self), *final(self), 3_500),
            log_extends(*old(self), *final(self)),
            same_roster(*old(self), *final(self)),
    {
        if self.phase == Phase::GameOver {
            proof { lemma_growth_by(*old(self), *self, 3_500); }
            return Err(GameError::InvalidPhase);
        }
        let result = match action {
            Action::Roll => self.roll(),
            Action::PayCooldown => self.pay_cooldown(),
            Action::UseBypass => self.use_bypass(),
            Action::Buy => self.buy(),
            Action::Decline => self.decline(),
            Action::AuctionBid(amount) => self.auction_bid(amount),
            Action::AuctionPass => self.auction_pass(),
            Action::AllocateTensor(tile) => self.allocate_tensor(tile),
            Action::ReleaseTensor(tile) => self.release_tensor(tile),
            Action::Archive(tile) => self.archive(tile),
            Action::Restore(tile) => self.restore(tile),
            Action::EndTurn => self.end_turn(),
            Action::PickRoll(k) => self.pick_roll(k),
            Action::PickCard(k) => self.pick_card(k),
        };
        proof {
            let a = *old(self);
            let b = *self;
            if !(action is Roll) && !(action is PickRoll) && !(action is PickCard) {
                assert(a.players@.len() == b.players@.len());
                assert forall|i: int| 0 <= i < a.players@.len() implies (#[trigger] b.players@[i]).credits
                    <= a.players@[i].credits + 3_500 by {
                    match action {
                        Action::Buy => {
                            if let Phase::OfferPurchase { tile } = a.phase {
                                lemma_price_range(parameters_of_tile(tile as int));
                            }
                        },
                        Action::Archive(tile) => lemma_price_range(parameters_of_tile(tile as int)),
                        Action::Restore(tile) => lemma_price_range(parameters_of_tile(tile as int)),
                        _ => {},
                    }
                }
                lemma_growth_by(a, b, 3_500);
            }
        }
        result
    }
}

} // verus!

verus! {

/// What a move of the human followed by the bots' replies does to game `a`,
/// giving game `b` and result `r`: a refused move changes nothing; an accepted
/// one is followed by the bots' moves until the human must act again.
pub open spec fn played(a: Game, b: Game, action: Action, r: Result<(), GameError>) -> bool {
    exists|mid: Game, first: Result<(), GameError>| #[trigger] apply_outcome(a, mid, action, first) && match first {
        Err(_) => b == a && r == first,
        Ok(()) => exists|trace: Seq<Game>| crate::bots::drove(mid, b, r, trace),
    }
}

impl Game {
    /// Applies the human's move and then lets the bots move.
    #[verifier::rlimit(40)]
    pub fn play(&mut self, action: Action) -> (result: Result<(), GameError>)
        requires
            old(self).wf(),
            old(self).credits_at_most(crate::playable::playable_credit_bound()),
        ensures
            final(self).wf(),
            played(*old(self), *final(self), action, result),
    {
        let ghost start = *self;
        let first = self.apply(action);
        match first {
            Err(e) => {
                assert(apply_outcome(start, start, action, Err(e)));
                return Err(e);
            },
            Ok(()) => {},
        }
        assert(first is Ok && first->Ok_0 == ());
        assert(first == Ok::<(), GameError>(()));
        let ghost mid = *self;
        assert(start.credits_at_most(crate::playable::playable_credit_bound()));
        assert(mid.credits_at_most(crate::playable::playable_credit_bound() + 3_500));
        let result = crate::bots::drive_bots(self);
        assert(apply_outcome(start, mid, action, Ok(())));
        result
    }
}

} // verus!
