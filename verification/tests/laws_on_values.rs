use tensor_tycoon::catalog::{model, models, Card, START_CREDITS};
use tensor_tycoon::ending::{leaders, top_worth};
use tensor_tycoon::state::{Action, Game, GameConfig, GameError, Phase};

fn game() -> Game {
    Game::new(GameConfig::default()).unwrap()
}

#[test]
fn refused_action_leaves_the_game_unchanged() {
    let mut game = game();
    let before = game.clone();
    assert_eq!(game.apply(Action::Buy), Err(GameError::InvalidPhase));
    assert_eq!(game, before);
    game.phase = Phase::Manage;
    let before = game.clone();
    assert_eq!(game.apply(Action::Archive(1)), Err(GameError::NotOwner));
    assert_eq!(game.apply(Action::Archive(3)), Err(GameError::UnknownModel));
    assert_eq!(game, before);
}

#[test]
fn finished_game_refuses_every_action() {
    let mut game = game();
    game.phase = Phase::GameOver;
    for action in [Action::Roll, Action::EndTurn, Action::Buy, Action::AuctionPass] {
        assert_eq!(game.apply(action), Err(GameError::InvalidPhase));
    }
}

#[test]
fn deck_holds_each_card_once() {
    let game = game();
    let mut names: Vec<String> = game.deck.iter().map(|card| format!("{card:?}")).collect();
    names.sort();
    let mut all: Vec<String> = [
        Card::Gain50,
        Card::Gain100,
        Card::Gain150,
        Card::Pay50,
        Card::Pay100,
        Card::Collect25Each,
        Card::Pay25Each,
        Card::AdvanceHub,
        Card::AdvanceFlagship,
        Card::BackThree,
        Card::EnterCooldown,
        Card::BypassToken,
    ]
    .iter()
    .map(|card| format!("{card:?}"))
    .collect();
    all.sort();
    assert_eq!(names, all);
    assert_eq!(game.rng, Game::new(GameConfig::default()).unwrap().rng);
}

#[test]
fn bigger_models_never_cost_less() {
    let mut roster = models();
    roster.sort_by_key(|definition| definition.parameter_count);
    for pair in roster.windows(2) {
        assert!(pair[0].price() <= pair[1].price());
        assert_eq!(pair[0].price() % 10, 0);
    }
    assert_eq!(model(23).unwrap().price(), 300);
    assert_eq!(model(1).unwrap().price(), 100);
    assert!(model(3).is_none());
}

#[test]
fn archive_then_restore_costs_a_tenth_rounded_up() {
    let mut game = game();
    game.models.get_mut(&23).unwrap().owner = Some(0);
    game.phase = Phase::Manage;
    let before = game.players[0].credits;
    game.apply(Action::Archive(23)).unwrap();
    assert_eq!(game.players[0].credits, before + 150);
    game.apply(Action::Restore(23)).unwrap();
    assert_eq!(game.players[0].credits, before - 15);
    assert!(!game.models[&23].archived);
    assert_eq!(game.models[&23].owner, Some(0));
}

#[test]
fn winners_are_the_richest_survivors() {
    let mut game = Game::new(GameConfig {
        bot_count: 3,
        ..GameConfig::default()
    })
    .unwrap();
    game.players[1].credits = 2_000;
    game.players[3].credits = 2_000;
    game.players[2].bankrupt = true;
    game.players[2].credits = 5_000;
    assert_eq!(top_worth_of(&game), 2_000);
    game.round = game.config.round_limit;
    game.current_player = 3;
    game.phase = Phase::Manage;
    game.apply(Action::EndTurn).unwrap();
    assert_eq!(game.phase, Phase::GameOver);
    assert_eq!(game.winners, vec![1, 3]);
    let _ = (leaders, top_worth);
}

fn top_worth_of(game: &Game) -> i32 {
    (0..game.players.len())
        .filter(|id| !game.players[*id].bankrupt)
        .map(|id| game.net_worth(id))
        .max()
        .unwrap_or(0)
}

#[test]
fn charge_within_means_sells_assets_instead_of_bankruptcy() {
    let mut game = Game::new(GameConfig {
        bot_count: 2,
        ..GameConfig::default()
    })
    .unwrap();
    game.models.get_mut(&23).unwrap().owner = Some(0);
    game.players[0].credits = 100;
    game.charge(0, 200, Some(1));
    assert!(!game.players[0].bankrupt);
    assert!(game.models[&23].archived);
    assert_eq!(game.players[0].credits, 50);
    assert_eq!(game.players[1].credits, START_CREDITS + 200);
}

#[test]
fn bankruptcy_pays_the_creditor_everything_that_can_be_raised() {
    let mut game = Game::new(GameConfig {
        bot_count: 2,
        ..GameConfig::default()
    })
    .unwrap();
    game.models.get_mut(&23).unwrap().owner = Some(0);
    game.players[0].credits = 100;
    game.charge(0, 1_000, Some(1));
    assert!(game.players[0].bankrupt);
    assert_eq!(game.players[0].credits, 0);
    assert_eq!(game.players[1].credits, START_CREDITS + 250);
    assert_eq!(game.models[&23].owner, Some(1));
}

#[test]
fn passing_the_hub_pays_the_bonus() {
    let mut game = game();
    game.players[0].position = 22;
    let seed = (1..10_000u64)
        .find(|seed| {
            let mut probe = game.clone();
            probe.rng = tensor_tycoon::rng::SimpleRng::new(*seed);
            probe.apply(Action::Roll).unwrap();
            let (a, b) = probe.last_roll.unwrap();
            a != b && (22 + a as usize + b as usize) % 24 == 1
        })
        .unwrap();
    game.rng = tensor_tycoon::rng::SimpleRng::new(seed);
    game.apply(Action::Roll).unwrap();
    assert_eq!(game.players[0].position, 1);
    assert_eq!(game.players[0].credits, START_CREDITS + 200);
    assert_eq!(game.phase, Phase::OfferPurchase { tile: 1 });
}

#[test]
fn three_doubles_send_the_player_to_cooldown() {
    let mut game = game();
    game.doubles_streak = 2;
    let seed = (1..100_000u64)
        .find(|seed| {
            let mut rng = tensor_tycoon::rng::SimpleRng::new(*seed);
            rng.die() == rng.die()
        })
        .unwrap();
    game.rng = tensor_tycoon::rng::SimpleRng::new(seed);
    game.apply(Action::Roll).unwrap();
    assert_eq!(game.players[0].position, 6);
    assert_eq!(game.players[0].cooldown_turns, 1);
    assert_eq!(game.phase, Phase::Manage);
    assert!(!game.extra_turn);
}

#[test]
fn pay_cooldown_and_bypass_errors() {
    let mut game = game();
    assert_eq!(game.apply(Action::PayCooldown), Err(GameError::InvalidPhase));
    game.players[0].cooldown_turns = 1;
    game.players[0].credits = 10;
    assert_eq!(game.apply(Action::PayCooldown), Err(GameError::InsufficientFunds));
    assert_eq!(game.apply(Action::UseBypass), Err(GameError::InvalidPhase));
    game.players[0].bypass_tokens = 1;
    game.apply(Action::UseBypass).unwrap();
    assert_eq!(game.players[0].cooldown_turns, 0);
    assert_eq!(game.players[0].bypass_tokens, 0);
}

#[test]
fn bids_must_rise_and_be_affordable() {
    let mut game = game();
    game.phase = Phase::OfferPurchase { tile: 1 };
    game.apply(Action::Decline).unwrap();
    let refusal = game.apply(Action::AuctionBid(5)).unwrap_err();
    assert_eq!(
        refusal,
        GameError::InvalidAction("bid must be at least 10 and affordable".into())
    );
    game.apply(Action::AuctionBid(40)).unwrap();
    let refusal = game.apply(Action::AuctionBid(45)).unwrap_err();
    assert_eq!(
        refusal,
        GameError::InvalidAction("bid must be at least 50 and affordable".into())
    );
}

fn three_player_game_drawing(card: Card) -> Game {
    let mut game = Game::new(GameConfig {
        bot_count: 2,
        ..GameConfig::default()
    })
    .unwrap();
    let index = game.deck_index;
    game.deck[index] = card;
    game.players[0].position = 3;
    game
}

#[test]
fn collect_card_takes_twenty_five_from_each_rival() {
    let mut game = three_player_game_drawing(Card::Collect25Each);
    game.draw_card();
    assert_eq!(game.players[0].credits, START_CREDITS + 50);
    assert_eq!(game.players[1].credits, START_CREDITS - 25);
    assert_eq!(game.players[2].credits, START_CREDITS - 25);

    let mut game = three_player_game_drawing(Card::Collect25Each);
    game.players[1].credits = 10;
    game.draw_card();
    assert!(game.players[1].bankrupt);
    assert_eq!(game.players[1].credits, 0);
    assert!(!game.players[2].bankrupt);
    assert_eq!(game.players[0].credits, START_CREDITS + 35);
}

#[test]
fn pay_card_gives_twenty_five_to_each_rival() {
    let mut game = three_player_game_drawing(Card::Pay25Each);
    game.draw_card();
    assert_eq!(game.players[0].credits, START_CREDITS - 50);
    assert_eq!(game.players[1].credits, START_CREDITS + 25);
    assert_eq!(game.players[2].credits, START_CREDITS + 25);

    let mut game = three_player_game_drawing(Card::Pay25Each);
    game.players[0].credits = 30;
    game.draw_card();
    assert!(game.players[0].bankrupt);
    assert_eq!(game.players[0].credits, 0);
    assert_eq!(game.players[1].credits, START_CREDITS + 25);
    assert_eq!(game.players[2].credits, START_CREDITS + 5);
}

#[test]
fn raising_credits_releases_from_the_most_tensored_model_first() {
    let mut game = game();
    for (tile, tensors) in [(1usize, 2u8), (2, 2), (4, 1)] {
        let state = game.models.get_mut(&tile).unwrap();
        state.owner = Some(0);
        state.tensors = tensors;
    }
    game.players[0].credits = 0;
    let refund = model(2).unwrap().tensor_cost / 2;
    game.raise_credits(0, refund);
    assert_eq!(game.players[0].credits, refund);
    assert_eq!(game.models[&1].tensors, 2);
    assert_eq!(game.models[&2].tensors, 1);
    assert_eq!(game.models[&4].tensors, 1);
    assert!(game.models.values().all(|state| !state.archived));
}

#[test]
fn raising_credits_archives_the_cheapest_model_first() {
    let mut game = game();
    for tile in [7usize, 1, 8] {
        game.models.get_mut(&tile).unwrap().owner = Some(0);
    }
    game.players[0].credits = 0;
    game.raise_credits(0, 1);
    let cheapest = [7usize, 1, 8]
        .into_iter()
        .min_by_key(|tile| model(*tile).unwrap().price())
        .unwrap();
    for tile in [7usize, 1, 8] {
        assert_eq!(game.models[&tile].archived, tile == cheapest);
    }
    assert_eq!(game.players[0].credits, model(cheapest).unwrap().price() / 2);
}

#[test]
fn rolling_in_cooldown_spends_a_bypass_token_first() {
    let seed = (1..10_000)
        .find(|seed| {
            let mut rng = tensor_tycoon::rng::SimpleRng::new(*seed);
            let first = rng.die();
            let second = rng.die();
            first != second && first + second != 9
        })
        .unwrap();
    let mut game = game();
    game.rng = tensor_tycoon::rng::SimpleRng::new(seed);
    game.players[0].position = 6;
    game.players[0].cooldown_turns = 1;
    game.players[0].bypass_tokens = 1;
    game.apply(Action::Roll).unwrap();
    assert_eq!(game.players[0].bypass_tokens, 0);
    assert_eq!(game.players[0].cooldown_turns, 0);
    assert_ne!(game.players[0].position, 6);

    let mut game = Game::new(GameConfig::default()).unwrap();
    game.rng = tensor_tycoon::rng::SimpleRng::new(seed);
    game.players[0].position = 6;
    game.players[0].cooldown_turns = 1;
    game.apply(Action::Roll).unwrap();
    assert_eq!(game.players[0].cooldown_turns, 2);
    assert_eq!(game.players[0].position, 6);
}

#[test]
fn a_short_payer_archives_a_model_to_pay_the_levy() {
    let mut game = three_player_game_drawing(Card::Collect25Each);
    game.players[1].credits = 10;
    game.models.get_mut(&1).unwrap().owner = Some(1);
    game.draw_card();
    assert!(!game.players[1].bankrupt);
    assert!(game.models[&1].archived);
    assert_eq!(game.models[&1].owner, Some(1));
    assert_eq!(game.players[1].credits, 10 + model(1).unwrap().price() / 2 - 25);
    assert_eq!(game.players[0].credits, START_CREDITS + 50);
}

#[test]
fn easy_mode_gives_the_human_more_starting_credits() {
    let game = Game::new(GameConfig {
        bot_count: 2,
        difficulty: tensor_tycoon::catalog::Difficulty::Easy,
        ..GameConfig::default()
    })
    .unwrap();
    assert_eq!(game.players[0].credits, 2000);
    assert_eq!(game.players[1].credits, START_CREDITS);
    assert_eq!(game.players[2].credits, START_CREDITS);
    let standard = Game::new(GameConfig::default()).unwrap();
    assert_eq!(standard.players[0].credits, START_CREDITS);
}

#[test]
fn advance_to_flagship_wraps_round_past_the_hub() {
    let mut game = game();
    let index = game.deck_index;
    game.deck[index] = Card::AdvanceFlagship;
    game.players[0].position = 23;
    game.draw_card();
    assert_eq!(game.players[0].position, 5);
    assert_eq!(game.players[0].credits, START_CREDITS + 200);
    assert_eq!(game.phase, Phase::OfferPurchase { tile: 5 });
}

#[test]
fn cooldown_fee_bankruptcy_leaves_the_turn_to_manage() {
    let seed = (1..10_000)
        .find(|seed| {
            let mut rng = tensor_tycoon::rng::SimpleRng::new(*seed);
            rng.die() != rng.die()
        })
        .unwrap();
    let mut game = Game::new(GameConfig {
        bot_count: 2,
        ..GameConfig::default()
    })
    .unwrap();
    game.rng = tensor_tycoon::rng::SimpleRng::new(seed);
    game.players[0].position = 6;
    game.players[0].cooldown_turns = 3;
    game.players[0].credits = 10;
    game.apply(Action::Roll).unwrap();
    assert!(game.players[0].bankrupt);
    assert_eq!(game.players[0].position, 6);
    assert_eq!(game.phase, Phase::Manage);
}

#[test]
fn bankruptcy_to_a_creditor_starts_no_auction() {
    let mut game = Game::new(GameConfig {
        bot_count: 2,
        ..GameConfig::default()
    })
    .unwrap();
    game.models.get_mut(&1).unwrap().owner = Some(0);
    game.players[0].credits = 0;
    game.charge(0, 1000, Some(1));
    assert!(game.players[0].bankrupt);
    assert_eq!(game.models[&1].owner, Some(1));
    assert!(game.models[&1].archived);
    assert!(game.auction.is_none());
    assert_eq!(game.players[1].credits, START_CREDITS + model(1).unwrap().price() / 2);
}

#[test]
fn allocating_and_releasing_a_tensor_round_trips() {
    let mut game = game();
    for tile in [1usize, 2, 4] {
        game.models.get_mut(&tile).unwrap().owner = Some(0);
    }
    game.phase = Phase::Manage;
    let before = game.models.clone();
    let cost = model(1).unwrap().tensor_cost;
    game.apply(Action::AllocateTensor(1)).unwrap();
    assert_eq!(game.models[&1].tensors, 1);
    game.apply(Action::ReleaseTensor(1)).unwrap();
    assert_eq!(game.models, before);
    assert_eq!(game.players[0].credits, START_CREDITS - (cost - cost / 2));
}

fn easy_game() -> Game {
    Game::new(GameConfig {
        difficulty: tensor_tycoon::catalog::Difficulty::Easy,
        ..GameConfig::default()
    })
    .unwrap()
}

#[test]
fn easy_human_chooses_one_of_three_rolls() {
    let game = easy_game();
    let options = game.roll_options();
    assert_eq!(options.len(), 3);
    let mut rng = game.rng;
    for option in &options {
        let first = rng.die();
        let second = rng.die();
        assert_eq!(*option, (first, second));
    }
    let mut picked = game.clone();
    picked.apply(Action::PickRoll(2)).unwrap();
    assert_eq!(picked.last_roll, Some(options[2]));
    let mut refused = game.clone();
    assert!(matches!(refused.apply(Action::PickRoll(3)), Err(GameError::InvalidAction(_))));
    assert_eq!(refused, game);
    let mut standard = Game::new(GameConfig::default()).unwrap();
    assert_eq!(standard.apply(Action::PickRoll(0)), Err(GameError::InvalidPhase));
}

#[test]
fn easy_human_chooses_one_of_three_cards() {
    let mut game = easy_game();
    let index = game.deck_index;
    let len = game.deck.len();
    game.deck[index] = Card::Pay100;
    game.deck[(index + 1) % len] = Card::Gain150;
    game.players[0].position = 3;
    game.resolve_space(3);
    assert_eq!(game.phase, Phase::ChooseCard);
    assert_eq!(game.players[0].credits, 2000);
    let options = game.card_options();
    assert_eq!(options[1], Card::Gain150);
    game.apply(Action::PickCard(1)).unwrap();
    assert_eq!(game.players[0].credits, 2150);
    assert_eq!(game.phase, Phase::Manage);
    assert_eq!(game.deck[index], Card::Gain150);
    assert_eq!(game.deck[(index + 1) % len], Card::Pay100);
}

#[test]
fn games_outside_the_invariant_are_not_playable() {
    let game = game();
    assert!(game.is_playable());
    let mut archived = game.clone();
    let state = archived.models.get_mut(&1).unwrap();
    state.owner = Some(0);
    state.archived = true;
    state.tensors = 1;
    assert!(!archived.is_playable());
    let mut unowned = game.clone();
    unowned.models.get_mut(&2).unwrap().tensors = 1;
    assert!(!unowned.is_playable());
    let mut late = game.clone();
    late.round = late.config.round_limit + 1;
    assert!(!late.is_playable());
}
