//! Ending a turn: passing play to the next player still in the game, counting
//! rounds, and deciding the winners by net worth when the last round is over.
use vstd::prelude::*;
use crate::state::{alive_ids, announces, log_extends, Game, GameError, GameLog, Phase, Player};

verus! {

/// The seat that play passes to from `from`: the first player after it, going
/// round the table, who is not bankrupt; `from` itself when there is none.
pub open spec fn seat_after(players: Seq<Player>, from: int, step: int) -> int
    decreases players.len() - step,
{
    if step >= players.len() || step < 1 {
        from
    } else {
        let candidate = (from + step) % (players.len() as int);
        if !players[candidate].bankrupt {
            candidate
        } else {
            seat_after(players, from, step + 1)
        }
    }
}

/// The next player to move after `from`.
pub open spec fn next_seat(players: Seq<Player>, from: int) -> int {
    seat_after(players, from, 1)
}

/// The highest net worth among the first `k` players who are not bankrupt.
pub open spec fn best_worth_among(g: Game, k: int) -> Option<int>
    decreases k,
{
    if k <= 0 {
        None
    } else {
        let rest = best_worth_among(g, k - 1);
        if g.players@[k - 1].bankrupt {
            rest
        } else {
            let w = g.worth_of(k - 1);
            match rest {
                None => Some(w),
                Some(b) => Some(if w > b { w } else { b }),
            }
        }
    }
}

/// The highest net worth of a player still in the game (0 when nobody is).
pub open spec fn top_worth(g: Game) -> int {
    match best_worth_among(g, g.players@.len() as int) {
        Some(b) => b,
        None => 0,
    }
}

/// Ids of the first `k` players who are not bankrupt and are worth `best`.
pub open spec fn leaders_among(g: Game, best: int, k: int) -> Seq<usize>
    decreases k,
{
    if k <= 0 {
        Seq::empty()
    } else if !g.players@[k - 1].bankrupt && g.worth_of(k - 1) == best {
        leaders_among(g, best, k - 1).push(g.players@[k - 1].id)
    } else {
        leaders_among(g, best, k - 1)
    }
}

/// The players still in the game with the highest net worth, in seat order.
pub open spec fn leaders(g: Game) -> Seq<usize> {
    leaders_among(g, top_worth(g), g.players@.len() as int)
}

proof fn lemma_best_among(g: Game, k: int)
    requires
        0 <= k <= g.players@.len(),
    ensures
        best_worth_among(g, k) is None <==> forall|j: int| 0 <= j < k ==> (#[trigger] g.players@[j]).bankrupt,
        best_worth_among(g, k) matches Some(b) ==> {
            &&& forall|j: int| 0 <= j < k && !(#[trigger] g.players@[j]).bankrupt ==> g.worth_of(j) <= b
            &&& exists|j: int| 0 <= j < k && !(#[trigger] g.players@[j]).bankrupt && g.worth_of(j) == b
        },
    decreases k,
{
    if k > 0 {
        lemma_best_among(g, k - 1);
        if g.players@[k - 1].bankrupt {
            if best_worth_among(g, k - 1) is None {
                assert forall|j: int| 0 <= j < k implies (#[trigger] g.players@[j]).bankrupt by {
                    if j < k - 1 {
                        assert(g.players@[j].bankrupt);
                    }
                }
            } else {
                let b = best_worth_among(g, k - 1)->0;
                let w = choose|j: int| 0 <= j < k - 1 && !(#[trigger] g.players@[j]).bankrupt && g.worth_of(j) == b;
                assert(!g.players@[w].bankrupt);
            }
        } else {
            assert(!g.players@[k - 1].bankrupt);
            let w = g.worth_of(k - 1);
            match best_worth_among(g, k - 1) {
                None => {
                    assert forall|j: int| 0 <= j < k && !(#[trigger] g.players@[j]).bankrupt implies g.worth_of(j) <= w by {
                        if j < k - 1 {
                            assert(g.players@[j].bankrupt);
                        }
                    }
                },
                Some(b) => {
                    let m = if w > b { w } else { b };
                    assert forall|j: int| 0 <= j < k && !(#[trigger] g.players@[j]).bankrupt implies g.worth_of(j) <= m by {
                        if j < k - 1 {
                            assert(g.worth_of(j) <= b);
                        }
                    }
                    if w <= b {
                        let x = choose|j: int| 0 <= j < k - 1 && !(#[trigger] g.players@[j]).bankrupt && g.worth_of(j) == b;
                        assert(!g.players@[x].bankrupt);
                    }
                },
            }
        }
    }
}

proof fn lemma_leaders_among(g: Game, best: int, k: int)
    requires
        0 <= k <= g.players@.len(),
        forall|i: int| 0 <= i < g.players@.len() ==> (#[trigger] g.players@[i]).id == i,
    ensures
        forall|j: int| 0 <= j < leaders_among(g, best, k).len() ==> #[trigger] leaders_among(g, best, k)[j] < k,
        forall|i: int| 0 <= i < k ==> (leaders_among(g, best, k).contains(i as usize) <==> (!(#[trigger] g.players@[i]).bankrupt
            && g.worth_of(i) == best)),
    decreases k,
{
    if k > 0 {
        lemma_leaders_among(g, best, k - 1);
        let prev = leaders_among(g, best, k - 1);
        let cur = leaders_among(g, best, k);
        if !g.players@[k - 1].bankrupt && g.worth_of(k - 1) == best {
            assert(cur == prev.push((k - 1) as usize));
            assert forall|j: int| 0 <= j < cur.len() implies #[trigger] cur[j] < k by {
                if j < prev.len() {
                    assert(cur[j] == prev[j]);
                }
            }
            assert forall|i: int| 0 <= i < k implies (cur.contains(i as usize) <==> (!(#[trigger] g.players@[i]).bankrupt
                && g.worth_of(i) == best)) by {
                if i < k - 1 {
                    if cur.contains(i as usize) {
                        let j = choose|j: int| 0 <= j < cur.len() && cur[j] == i as usize;
                        if j < prev.len() {
                            assert(prev[j] == i as usize);
                        }
                    }
                    if prev.contains(i as usize) {
                        let j = choose|j: int| 0 <= j < prev.len() && prev[j] == i as usize;
                        assert(cur[j] == i as usize);
                    }
                } else {
                    assert(cur[prev.len() as int] == i as usize);
                }
            }
        } else {
            assert forall|i: int| 0 <= i < k implies (cur.contains(i as usize) <==> (!(#[trigger] g.players@[i]).bankrupt
                && g.worth_of(i) == best)) by {
                if i == k - 1 {
                    if cur.contains(i as usize) {
                        let j = choose|j: int| 0 <= j < cur.len() && cur[j] == i as usize;
                        assert(cur[j] < k - 1);
                    }
                }
            }
        }
    }
}

/// The winners at the round limit are exactly the players still in the game
/// whose net worth is the highest; nobody still in the game is worth more, and
/// there is at least one winner whenever somebody is still in the game.
pub proof fn lemma_winners_are_richest(g: Game)
    requires
        g.wf(),
    ensures
        forall|i: int| 0 <= i < g.players@.len() ==> (leaders(g).contains(i as usize) <==> (!(#[trigger] g.players@[i]).bankrupt
            && g.worth_of(i) == top_worth(g))),
        forall|i: int| 0 <= i < g.players@.len() && !(#[trigger] g.players@[i]).bankrupt ==> g.worth_of(i) <= top_worth(g),
        (exists|i: int| 0 <= i < g.players@.len() && !(#[trigger] g.players@[i]).bankrupt) ==> leaders(g).len() > 0,
{
    let n = g.players@.len() as int;
    lemma_best_among(g, n);
    lemma_leaders_among(g, top_worth(g), n);
    if exists|i: int| 0 <= i < n && !(#[trigger] g.players@[i]).bankrupt {
        let b = top_worth(g);
        let x = choose|j: int| 0 <= j < n && !(#[trigger] g.players@[j]).bankrupt && g.worth_of(j) == b;
        assert(leaders(g).contains(x as usize));
    }
}

/// What ending the game by net worth does: the richest players still in the
/// game win, and the win is logged.
pub open spec fn finished_by_worth(a: Game, b: Game) -> bool {
    &&& b.winners@ == leaders(a)
    &&& log_extends(a, b)
    &&& b.logs@.len() == a.logs@.len() + 1
    &&& announces(b.logs@.last(), b.winners@)
    &&& b == (Game { winners: b.winners, phase: Phase::GameOver, logs: b.logs, ..a })
}

/// What `end_turn` does to game `a`, giving game `b` and result `r`.
pub open spec fn end_turn_outcome(a: Game, b: Game, r: Result<(), GameError>) -> bool {
    let cur = a.current_player as int;
    let next = next_seat(a.players@, cur);
    let cleared = Game { doubles_streak: 0, last_roll: None, ..a };
    if a.phase != Phase::Manage {
        r == Err::<(), GameError>(GameError::InvalidPhase) && b == a
    } else if a.extra_turn && !a.players@[cur].bankrupt {
        r is Ok && b == (Game { extra_turn: false, phase: Phase::AwaitRoll, ..a })
    } else if next <= cur && a.round >= a.config.round_limit {
        r is Ok && finished_by_worth(cleared, b)
    } else {
        let moved = Game {
            current_player: next as usize,
            round: if next <= cur { (a.round + 1) as u16 } else { a.round },
            phase: Phase::AwaitRoll,
            ..cleared
        };
        &&& r is Ok
        &&& if alive_ids(a.players@).len() == 1 {
            &&& b.winners@ == alive_ids(a.players@)
            &&& log_extends(a, b)
            &&& b.logs@.len() == a.logs@.len() + 1
            &&& announces(b.logs@.last(), b.winners@)
            &&& b == (Game { winners: b.winners, logs: b.logs, phase: Phase::GameOver, ..moved })
        } else {
            b == moved
        }
    }
}

impl Game {
    /// Ends the game at the round limit: the players still in the game with
    /// the highest net worth win.
    pub fn finish_by_net_worth(&mut self)
        requires
            old(self).wf(),
            old(self).no_bids(),
            old(self).credits_at_most(i32::MAX - 11_200),
        ensures
            final(self).wf(),
            finished_by_worth(*old(self), *final(self)),
    {
        let n = self.players.len();
        let mut best: Option<i32> = None;
        let mut i: usize = 0;
        while i < n
            invariant
                self.wf(),
                self.credits_at_most(i32::MAX - 11_200),
                n == self.players@.len(),
                i <= n,
                match best {
                    Some(b) => best_worth_among(*self, i as int) == Some(b as int),
                    None => best_worth_among(*self, i as int) is None,
                },
            decreases n - i,
        {
            if !self.players[i].bankrupt {
                let w = self.net_worth(i);
                best = match best {
                    Some(b) => Some(if w > b { w } else { b }),
                    None => Some(w),
                };
            }
            i = i + 1;
        }
        let top: i32 = match best {
            Some(b) => b,
            None => 0,
        };
        assert(top == top_worth(*self));
        let mut winners: Vec<usize> = Vec::new();
        let mut k: usize = 0;
        while k < n
            invariant
                self.wf(),
                self.credits_at_most(i32::MAX - 11_200),
                n == self.players@.len(),
                k <= n,
                top == top_worth(*self),
                winners@ == leaders_among(*self, top as int, k as int),
            decreases n - k,
        {
            if !self.players[k].bankrupt && self.net_worth(k) == top {
                winners.push(self.players[k].id);
            }
            k = k + 1;
        }
        proof { lemma_leaders_among(*self, top as int, n as int); }
        assert(winners@ == leaders(*old(self)));
        let announced = winners.clone();
        self.winners = winners;
        self.phase = Phase::GameOver;
        self.logs.push(GameLog::Won { players: announced });
        assert(forall|j: int| 0 <= j < self.winners@.len() ==> #[trigger] self.winners@[j] < n);
    }

    /// Ends the current player's turn. After doubles the same player rolls
    /// again; otherwise play passes to the next player still in the game, a
    /// new round starts when play comes back round, and at the round limit the
    /// game ends by net worth.
    pub fn end_turn(&mut self) -> (result: Result<(), GameError>)
        requires
            old(self).wf(),
            old(self).credits_at_most(i32::MAX - 11_200),
        ensures
            final(self).wf(),
            end_turn_outcome(*old(self), *final(self), result),
    {
        if self.phase != Phase::Manage {
            return Err(GameError::InvalidPhase);
        }
        if self.extra_turn && !self.players[self.current_player].bankrupt {
            self.extra_turn = false;
            self.phase = Phase::AwaitRoll;
            return Ok(());
        }
        self.doubles_streak = 0;
        self.last_roll = None;
        let old_seat = self.current_player;
        let n = self.players.len();
        let mut next = old_seat;
        let mut step: usize = 1;
        while step < n
            invariant_except_break
                next == old_seat,
            invariant
                self.wf(),
                n == self.players@.len(),
                old_seat == self.current_player,
                1 <= step <= n,
                seat_after(self.players@, old_seat as int, step as int) == next_seat(self.players@, old_seat as int),
            ensures
                next == next_seat(self.players@, old_seat as int),
                next < n,
            decreases n - step,
        {
            let candidate = (old_seat + step) % n;
            if !self.players[candidate].bankrupt {
                next = candidate;
                break;
            }
            step = step + 1;
        }
        if next <= old_seat {
            if self.round >= self.config.round_limit {
                self.finish_by_net_worth();
                return Ok(());
            }
            self.round = self.round + 1;
        }
        self.current_player = next;
        self.phase = Phase::AwaitRoll;
        self.check_last_survivor();
        Ok(())
    }
}

} // verus!
