//! Starting a game: default settings, checking settings, seating the players
//! and shuffling the deck.
use vstd::prelude::*;
use vstd::string::*;
use std::collections::BTreeMap;
use crate::catalog::{
    is_model_tile, model_at, tile_of_index, Card, Difficulty, EASY_START_CREDITS, MODEL_COUNT, START_CREDITS,
};
use crate::decimal::{append_decimal, decimal};
use crate::rng::{golden_gamma, next_state, output, SimpleRng};
use crate::state::{unowned_model, Game, GameConfig, GameError, ModelState, Phase, Player};
use crate::strings::{trim, trimmed_len};
use crate::sums::lemma_roster_tiles;

verus! {

/// The refusal `InvalidConfig` with exactly this message.
pub open spec fn config_error<T>(r: Result<T, GameError>, message: Seq<char>) -> bool {
    r matches Err(GameError::InvalidConfig(m)) && m@ == message
}

/// The first rule a configuration breaks, as the message that reports it.
pub open spec fn config_refusal(config: GameConfig) -> Option<Seq<char>> {
    if trim(config.human_name@).len() == 0 {
        Some("player name is empty"@)
    } else if !(1 <= config.bot_count <= 3) {
        Some("bot count must be 1..=3"@)
    } else if !(20 <= config.round_limit <= 500) {
        Some("round limit must be 20..=500"@)
    } else {
        None
    }
}

/// The twelve cards, in the order they are dealt before shuffling.
pub open spec fn full_deck() -> Seq<Card> {
    seq![
        Card::Gain50,
        Card::Gain100,
        Card::Gain150,
        Card::Pay50,
        Card::Pay100,
        Card::Collect25Each,
        Card::Pay25Each,
        Card::AdvanceHub,
        Card::AdvanceFlagship,
        Card::BackThree,
        Card::EnterCooldown,
        Card::BypassToken,
    ]
}

/// The generator state a seed starts from.
pub open spec fn seed_state(seed: u64) -> u64 {
    if seed == 0 {
        golden_gamma()
    } else {
        seed
    }
}

/// The generator state after `k` draws.
pub open spec fn advanced(state: u64, k: nat) -> u64
    decreases k,
{
    if k == 0 {
        state
    } else {
        next_state(advanced(state, (k - 1) as nat))
    }
}

/// Fisher-Yates from position `i` down to 1: position `i` swaps with the
/// position the next draw picks among `0..=i`.
pub open spec fn shuffled(deck: Seq<Card>, state: u64, i: int) -> Seq<Card>
    decreases i,
{
    if i <= 0 || i >= deck.len() {
        deck
    } else {
        let j = ((output(state) as usize) % ((i + 1) as usize)) as int;
        shuffled(deck.update(i, deck[j]).update(j, deck[i]), next_state(state), i - 1)
    }
}

/// The human's starting credits: more in easy mode.
pub open spec fn human_start_credits(difficulty: Difficulty) -> i32 {
    match difficulty {
        Difficulty::Easy => EASY_START_CREDITS,
        Difficulty::Standard => START_CREDITS,
    }
}

/// A player as a new game seats them: at the hub with `credits`.
pub open spec fn seated(p: Player, id: int, human: bool, credits: i32) -> bool {
    &&& p.id == id
    &&& p.is_human == human
    &&& p.credits == credits
    &&& p.position == 0
    &&& p.cooldown_turns == 0
    &&& p.bypass_tokens == 0
    &&& !p.bankrupt
}

/// The game that `Game::new` builds from a valid configuration.
pub open spec fn new_game(config: GameConfig, g: Game) -> bool {
    let n = config.bot_count + 1;
    &&& g.config == config
    &&& g.players@.len() == n
    &&& seated(g.players@[0], 0, true, human_start_credits(config.difficulty))
    &&& g.players@[0].name@ == config.human_name@
    &&& forall|k: int| 1 <= k < n ==> seated(#[trigger] g.players@[k], k, false, START_CREDITS)
    &&& forall|k: int| 1 <= k < n ==> (#[trigger] g.players@[k]).name@ == "Bot "@ + decimal(k)
    &&& forall|t: usize| #[trigger] g.models@.contains_key(t) <==> is_model_tile(t as int)
    &&& forall|t: usize| #[trigger] g.models@.contains_key(t) ==> g.models@[t] == unowned_model()
    &&& g.deck@ == shuffled(full_deck(), seed_state(config.seed), 11)
    &&& g.rng.spec_state() == advanced(seed_state(config.seed), 11)
    &&& g.deck_index == 0
    &&& g.current_player == 0
    &&& g.round == 1
    &&& g.phase == Phase::AwaitRoll
    &&& g.auction is None
    &&& g.pending_bank_auctions@.len() == 0
    &&& g.last_roll is None
    &&& g.doubles_streak == 0
    &&& !g.extra_turn
    &&& g.logs@.len() == 0
    &&& g.winners@.len() == 0
}

/// Swapping two cards keeps the multiset of cards.
proof fn lemma_swap_keeps_cards(s: Seq<Card>, i: int, j: int)
    requires
        0 <= i < s.len(),
        0 <= j < s.len(),
    ensures
        s.update(i, s[j]).update(j, s[i]).to_multiset() == s.to_multiset(),
{
    broadcast use vstd::seq_lib::to_multiset_update;
    broadcast use vstd::multiset::group_multiset_axioms;
    let a = s[i];
    let b = s[j];
    let s1 = s.update(i, b);
    assert(s1[j] == b);
    assert(s.to_multiset().count(a) > 0) by {
        vstd::seq_lib::to_multiset_contains(s, a);
        assert(s.contains(a)) by {
            assert(s[i] == a);
        }
    }
    assert(s1.update(j, a).to_multiset() =~= s.to_multiset());
}

/// The shuffle only reorders the cards.
pub proof fn lemma_shuffle_keeps_cards(deck: Seq<Card>, state: u64, i: int)
    requires
        deck.len() <= usize::MAX,
    ensures
        shuffled(deck, state, i).to_multiset() == deck.to_multiset(),
        shuffled(deck, state, i).len() == deck.len(),
    decreases i,
{
    if !(i <= 0 || i >= deck.len()) {
        let j = ((output(state) as usize) % ((i + 1) as usize)) as int;
        assert((i + 1) as usize == i + 1);
        assert(0 <= j < i + 1);
        lemma_swap_keeps_cards(deck, i, j);
        lemma_shuffle_keeps_cards(deck.update(i, deck[j]).update(j, deck[i]), next_state(state), i - 1);
    }
}

impl Default for GameConfig {
    fn default() -> (config: Self)
        ensures
            config.human_name@ == "Player"@,
            config.bot_count == 1,
            config.round_limit == 100,
            config.seed == 0x4d4f_4e4f_504f_4c59,
            config.difficulty == Difficulty::Standard,
    {
        GameConfig {
            human_name: String::from_str("Player"),
            bot_count: 1,
            round_limit: 100,
            seed: 0x4d4f_4e4f_504f_4c59,
            difficulty: Difficulty::Standard,
        }
    }
}

impl GameConfig {
    /// Checks the settings: a name that is not blank, 1 to 3 bots, and a round
    /// limit of 20 to 500.
    pub fn validate(&self) -> (result: Result<(), GameError>)
        ensures
            match config_refusal(*self) {
                Some(message) => config_error(result, message),
                None => result is Ok,
            },
    {
        if trimmed_len(self.human_name.as_str()) == 0 {
            return Err(GameError::InvalidConfig(String::from_str("player name is empty")));
        }
        if !(1 <= self.bot_count && self.bot_count <= 3) {
            return Err(GameError::InvalidConfig(String::from_str("bot count must be 1..=3")));
        }
        if !(20 <= self.round_limit && self.round_limit <= 500) {
            return Err(GameError::InvalidConfig(String::from_str("round limit must be 20..=500")));
        }
        Ok(())
    }
}

impl Game {
    /// Starts a game: the human in seat 0 and the bots after, all at the hub
    /// with the starting credits (more for the human in easy mode), every model with the bank, and the deck
    /// shuffled by the seeded generator.
    pub fn new(config: GameConfig) -> (result: Result<Game, GameError>)
        ensures
            match config_refusal(config) {
                Some(message) => config_error(result, message),
                None => result matches Ok(g) && g.wf() && new_game(config, g),
            },
            result matches Ok(g) ==> g.deck@.to_multiset() == full_deck().to_multiset(),
    {
        match config.validate() {
            Err(e) => return Err(e),
            Ok(()) => {},
        }
        let human_credits = match config.difficulty {
            Difficulty::Easy => EASY_START_CREDITS,
            Difficulty::Standard => START_CREDITS,
        };
        let mut players: Vec<Player> = Vec::new();
        players.push(Player {
            id: 0,
            name: config.human_name.clone(),
            is_human: true,
            credits: human_credits,
            position: 0,
            cooldown_turns: 0,
            bypass_tokens: 0,
            bankrupt: false,
        });
        let mut index: u8 = 0;
        while index < config.bot_count
            invariant
                config.bot_count <= 3,
                index <= config.bot_count,
                players@.len() == index + 1,
                seated(players@[0], 0, true, human_start_credits(config.difficulty)),
                players@[0].name@ == config.human_name@,
                forall|k: int| 1 <= k < index + 1 ==> seated(#[trigger] players@[k], k, false, START_CREDITS),
                forall|k: int| 1 <= k < index + 1 ==> (#[trigger] players@[k]).name@ == "Bot "@ + decimal(k),
            decreases config.bot_count - index,
        {
            let mut name = String::from_str("Bot ");
            append_decimal(&mut name, index as i64 + 1);
            players.push(Player {
                id: index as usize + 1,
                name,
                is_human: false,
                credits: START_CREDITS,
                position: 0,
                cooldown_turns: 0,
                bypass_tokens: 0,
                bankrupt: false,
            });
            index = index + 1;
        }
        let mut rng = SimpleRng::new(config.seed);
        let mut deck: Vec<Card> = vec![
            Card::Gain50,
            Card::Gain100,
            Card::Gain150,
            Card::Pay50,
            Card::Pay100,
            Card::Collect25Each,
            Card::Pay25Each,
            Card::AdvanceHub,
            Card::AdvanceFlagship,
            Card::BackThree,
            Card::EnterCooldown,
            Card::BypassToken,
        ];
        assert(deck@ == full_deck());
        let mut i: usize = 11;
        while i > 0
            invariant
                deck@.len() == 12,
                i <= 11,
                shuffled(deck@, rng.spec_state(), i as int) == shuffled(full_deck(), seed_state(config.seed), 11),
                rng.spec_state() == advanced(seed_state(config.seed), (11 - i) as nat),
            decreases i,
        {
            let r = rng.next();
            let j = (r as usize) % (i + 1);
            let a = deck[i];
            let b = deck[j];
            deck.set(i, b);
            deck.set(j, a);
            i = i - 1;
        }
        let mut models: BTreeMap<usize, ModelState> = BTreeMap::new();
        let mut m: usize = 0;
        proof { lemma_roster_tiles(); }
        while m < MODEL_COUNT
            invariant
                m <= MODEL_COUNT,
                forall|t: usize| #[trigger] models@.contains_key(t) <==> exists|k: int| 0 <= k < m && tile_of_index(k) == t,
                forall|t: usize| #[trigger] models@.contains_key(t) ==> models@[t] == unowned_model(),
            decreases MODEL_COUNT - m,
        {
            let definition = model_at(m);
            models.insert(definition.tile, ModelState::default());
            m = m + 1;
        }
        assert forall|t: usize| #[trigger] models@.contains_key(t) <==> is_model_tile(t as int) by {
            if is_model_tile(t as int) {
                let k = crate::catalog::index_of_tile(t as int);
                assert(tile_of_index(k) == t);
            }
        }
        proof { lemma_shuffle_keeps_cards(full_deck(), seed_state(config.seed), 11); }
        let game = Game {
            config,
            players,
            models,
            deck,
            deck_index: 0,
            rng,
            current_player: 0,
            round: 1,
            phase: Phase::AwaitRoll,
            auction: None,
            pending_bank_auctions: Vec::new(),
            last_roll: None,
            doubles_streak: 0,
            extra_turn: false,
            logs: Vec::new(),
            winners: Vec::new(),
        };
        Ok(game)
    }
}

} // verus!
