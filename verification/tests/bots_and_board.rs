use std::collections::BTreeSet;
use tensor_tycoon::bots::drive_bots;
use tensor_tycoon::catalog::{board, Difficulty};
use tensor_tycoon::layout::board_coordinates;
use tensor_tycoon::state::{Action, Game, GameConfig, Phase};

#[test]
fn bots_return_control_to_human() {
    let mut game = Game::new(GameConfig {
        bot_count: 3,
        round_limit: 20,
        ..GameConfig::default()
    })
    .unwrap();
    game.phase = Phase::Manage;
    game.apply(Action::EndTurn).unwrap();
    drive_bots(&mut game).unwrap();
    assert!(
        game.phase == Phase::GameOver
            || game.current().is_human
            || game.auction_actor() == Some(0)
    );
}

#[test]
fn easy_mode_uses_more_conservative_bot_purchase_reserve() {
    let mut easy = Game::new(GameConfig {
        difficulty: Difficulty::Easy,
        ..GameConfig::default()
    })
    .unwrap();
    easy.current_player = 1;
    easy.players[1].credits = 550;
    easy.phase = Phase::OfferPurchase { tile: 1 };
    drive_bots(&mut easy).unwrap();
    assert_eq!(easy.models[&1].owner, None);
    assert_eq!(easy.phase, Phase::Auction);
    assert_eq!(easy.auction_actor(), Some(0));

    let mut standard = Game::new(GameConfig::default()).unwrap();
    standard.current_player = 1;
    standard.players[1].credits = 550;
    standard.phase = Phase::OfferPurchase { tile: 1 };
    drive_bots(&mut standard).unwrap();
    assert_eq!(standard.models[&1].owner, Some(1));
}

#[test]
fn deterministic_bot_game_reaches_round_limit() {
    let mut game = Game::new(GameConfig {
        bot_count: 1,
        round_limit: 20,
        ..GameConfig::default()
    })
    .unwrap();
    for _ in 0..2_000 {
        if game.phase == Phase::GameOver {
            break;
        }
        if game.current().is_human && game.phase != Phase::Auction {
            match game.phase {
                Phase::AwaitRoll => game.apply(Action::Roll).unwrap(),
                Phase::OfferPurchase { .. } => game
                    .apply(Action::Buy)
                    .unwrap_or_else(|_| game.apply(Action::Decline).unwrap()),
                Phase::Manage => game.apply(Action::EndTurn).unwrap(),
                _ => {}
            }
        } else if game.phase == Phase::Auction && game.auction_actor() == Some(0) {
            game.apply(Action::AuctionPass).unwrap();
        }
        drive_bots(&mut game).unwrap();
    }
    assert_eq!(game.phase, Phase::GameOver);
    assert!(!game.winners.is_empty());
}

#[test]
fn board_coordinates_cover_the_perimeter_once() {
    let coordinates = (0..board().len())
        .map(|index| board_coordinates(index).unwrap())
        .collect::<BTreeSet<_>>();
    assert_eq!(coordinates.len(), 24);
    assert!(coordinates
        .iter()
        .all(|(column, row)| *column <= 6 && *row <= 6));
    assert!(board_coordinates(24).is_none());
}
