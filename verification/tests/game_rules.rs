use tensor_tycoon::catalog::{board, models, ModelDef, Space, COOLDOWN_FEE, START_CREDITS};
use tensor_tycoon::rng::SimpleRng;
use tensor_tycoon::state::{Action, Game, GameConfig, Phase};

fn game() -> Game {
    Game::new(GameConfig::default()).unwrap()
}

#[test]
fn validates_config() {
    let config = GameConfig {
        bot_count: 0,
        ..GameConfig::default()
    };
    assert!(config.validate().is_err());
    let config = GameConfig {
        round_limit: 19,
        ..GameConfig::default()
    };
    assert!(config.validate().is_err());
}

#[test]
fn model_roster_and_log_prices_are_stable() {
    assert_eq!(board().len(), 24);
    assert_eq!(models().len(), 16);
    let prices: Vec<_> = models().iter().map(ModelDef::price).collect();
    assert_eq!(
        prices,
        vec![100, 130, 150, 210, 110, 140, 170, 230, 120, 170, 210, 290, 190, 220, 230, 300,]
    );
    assert!(models()
        .iter()
        .all(|definition| board()[definition.tile] == Space::Model(definition.tile)));
}

#[test]
fn buying_and_family_usage_fee_work() {
    let mut game = game();
    game.phase = Phase::OfferPurchase { tile: 1 };
    game.apply(Action::Buy).unwrap();
    assert_eq!(game.models[&1].owner, Some(0));
    game.models.get_mut(&2).unwrap().owner = Some(0);
    game.models.get_mut(&4).unwrap().owner = Some(0);
    assert_eq!(game.usage_fee_for(1), 20);
}

#[test]
fn tensors_must_be_even() {
    let mut game = game();
    for tile in [1, 2, 4] {
        game.models.get_mut(&tile).unwrap().owner = Some(0);
    }
    game.phase = Phase::Manage;
    game.apply(Action::AllocateTensor(1)).unwrap();
    assert!(game.apply(Action::AllocateTensor(1)).is_err());
    game.apply(Action::AllocateTensor(2)).unwrap();
    game.apply(Action::AllocateTensor(4)).unwrap();
}

#[test]
fn archive_and_restore_round_trip() {
    let mut game = game();
    game.models.get_mut(&1).unwrap().owner = Some(0);
    game.phase = Phase::Manage;
    let before = game.players[0].credits;
    game.apply(Action::Archive(1)).unwrap();
    assert_eq!(game.players[0].credits, before + 50);
    game.apply(Action::Restore(1)).unwrap();
    assert_eq!(game.players[0].credits, before - 5);
}

#[test]
fn auction_awards_the_highest_bid() {
    let mut game = game();
    game.phase = Phase::OfferPurchase { tile: 1 };
    game.apply(Action::Decline).unwrap();
    game.apply(Action::AuctionBid(100)).unwrap();
    game.apply(Action::AuctionPass).unwrap();
    assert_eq!(game.models[&1].owner, Some(0));
    assert_eq!(game.players[0].credits, START_CREDITS - 100);
    assert_eq!(game.phase, Phase::Manage);
}

#[test]
fn fourth_model_must_catch_up_tensor_level() {
    let mut game = game();
    for tile in [1, 2, 4] {
        let state = game.models.get_mut(&tile).unwrap();
        state.owner = Some(0);
        state.tensors = 1;
    }
    game.models.get_mut(&5).unwrap().owner = Some(0);
    game.phase = Phase::Manage;
    assert!(game.apply(Action::AllocateTensor(1)).is_err());
    game.apply(Action::AllocateTensor(5)).unwrap();
}

#[test]
fn third_failed_cooldown_roll_pays_and_moves() {
    let mut game = game();
    let seed = (1..10_000)
        .find(|seed| {
            let mut rng = SimpleRng::new(*seed);
            (0..3).all(|_| rng.die() != rng.die())
        })
        .unwrap();
    game.rng = SimpleRng::new(seed);
    game.players[0].position = 6;
    game.players[0].cooldown_turns = 1;
    for attempt in 0..3 {
        game.phase = Phase::AwaitRoll;
        game.apply(Action::Roll).unwrap();
        if attempt < 2 {
            assert!(game.players[0].cooldown_turns > 0);
        }
    }
    assert_eq!(game.players[0].cooldown_turns, 0);
    assert_eq!(game.players[0].credits, START_CREDITS - COOLDOWN_FEE);
    assert_ne!(game.players[0].position, 6);
}

#[test]
fn round_limit_uses_net_worth() {
    let mut game = game();
    game.round = game.config.round_limit;
    game.current_player = game.players.len() - 1;
    game.phase = Phase::Manage;
    game.players[1].credits += 1;
    game.apply(Action::EndTurn).unwrap();
    assert_eq!(game.phase, Phase::GameOver);
    assert_eq!(game.winners, vec![1]);
}

#[test]
fn saveable_rng_is_deterministic() {
    let mut first = game();
    let mut second = first.clone();
    first.apply(Action::Roll).unwrap();
    second.apply(Action::Roll).unwrap();
    assert_eq!(first.last_roll, second.last_roll);
    assert_eq!(first.phase, second.phase);
}

#[test]
fn models_returned_to_bank_are_auctioned() {
    let mut game = Game::new(GameConfig {
        bot_count: 2,
        ..GameConfig::default()
    })
    .unwrap();
    game.models.get_mut(&1).unwrap().owner = Some(0);
    game.players[0].credits = 0;
    game.charge(0, 1_000, None);
    assert!(game.players[0].bankrupt);
    assert_eq!(game.phase, Phase::Auction);
    assert_eq!(game.auction.as_ref().unwrap().tile, 1);
}

#[test]
fn creditor_receives_models_on_bankruptcy() {
    let mut game = Game::new(GameConfig {
        bot_count: 2,
        ..GameConfig::default()
    })
    .unwrap();
    game.models.get_mut(&1).unwrap().owner = Some(0);
    game.players[0].credits = 0;
    game.charge(0, 1_000, Some(1));
    assert!(game.players[0].bankrupt);
    assert_eq!(game.models[&1].owner, Some(1));
    assert!(game.auction.is_none());
}
