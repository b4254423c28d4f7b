use tensor_tycoon::catalog::{Card, Language};
use tensor_tycoon::saves::{
    migrate_v1_game, migrate_v1_position, migrate_v1_tile, save_id, sort_newest_first, summarize,
    upgrade, validate_id, validate_name, SaveEnvelope, SaveError, SaveSummary, SAVE_VERSION,
};
use tensor_tycoon::state::{Game, GameConfig, GameLog, ModelState, Phase};
use tensor_tycoon::text::{card_name, log_line, text};

#[test]
fn labels_in_both_languages() {
    assert_eq!(text(Language::En, "title"), "Terminal Tycoon");
    assert_eq!(text(Language::ZhCn, "title"), "终端大富翁");
    assert_eq!(text(Language::En, "no_such_key"), "?");
    assert_eq!(card_name(Language::En, Card::BypassToken), "Get out of jail");
    assert_eq!(card_name(Language::ZhCn, Card::Gain50), "社区奖励 +50");
}

#[test]
fn log_lines_name_players_and_models() {
    let game = Game::new(GameConfig::default()).unwrap();
    let bought = GameLog::Bought { player: 0, tile: 1, price: 100 };
    assert_eq!(log_line(&game, Language::En, &bought), "Player bought Qwen3 0.6B for 100");
    assert_eq!(log_line(&game, Language::ZhCn, &bought), "Player 以 100 买下 Qwen3 0.6B");
    let fee = GameLog::UsageFee { from: 1, to: 0, amount: 20 };
    assert_eq!(log_line(&game, Language::En, &fee), "Bot 1 paid 20 rent to Player");
    let credits = GameLog::Credits { player: 0, amount: 50 };
    assert_eq!(log_line(&game, Language::En, &credits), "Player +50");
    let won = GameLog::Won { players: vec![0, 1] };
    assert_eq!(log_line(&game, Language::En, &won), "Winner: Player, Bot 1");
    let unknown = GameLog::Moved { player: 9, position: 23 };
    assert_eq!(log_line(&game, Language::En, &unknown), "? moved to tile 23");
}

#[test]
fn save_names_and_ids_are_checked() {
    assert_eq!(validate_name(""), Err(SaveError::InvalidName));
    assert_eq!(validate_name("   "), Err(SaveError::InvalidName));
    assert_eq!(validate_name("  Test  "), Ok(()));
    assert_eq!(validate_name(&"x".repeat(33)), Err(SaveError::InvalidName));
    assert_eq!(validate_id("../escape"), Err(SaveError::NotFound));
    assert_eq!(validate_id(""), Err(SaveError::NotFound));
    assert_eq!(validate_id("18c9a-2"), Ok(()));
    assert_eq!(SaveError::InvalidName.message(), "save name must contain 1 to 32 characters");
    assert_eq!(SaveError::UnsupportedVersion(7).message(), "unsupported save version 7");
}

#[test]
fn rejects_bad_names_and_ids() {
    assert!(validate_name("").is_err());
    assert!(validate_id("../escape").is_err());
}

#[test]
fn save_ids_are_hexadecimal_times() {
    assert_eq!(save_id(255, 0), "ff");
    assert_eq!(save_id(0x18c9a, 3), "18c9a-3");
    assert_eq!(validate_id(&save_id(u128::MAX, u32::MAX)), Ok(()));
}

#[test]
fn first_layout_tiles_and_positions_move() {
    assert_eq!(migrate_v1_tile(3), Some(4));
    assert_eq!(migrate_v1_tile(19), Some(23));
    assert_eq!(migrate_v1_tile(2), None);
    assert_eq!(migrate_v1_position(19), 23);
    assert_eq!(migrate_v1_position(30), 6);
}

#[test]
fn first_layout_games_move_to_the_current_board() {
    let mut game = Game::new(GameConfig::default()).unwrap();
    game.models.clear();
    game.models.insert(1, ModelState { owner: Some(0), tensors: 2, archived: false });
    game.models.insert(3, ModelState::default());
    game.players[0].position = 19;
    game.phase = Phase::OfferPurchase { tile: 19 };
    game.pending_bank_auctions = vec![3];
    game.logs = vec![
        GameLog::Moved { player: 0, position: 19 },
        GameLog::TensorAllocated { player: 0, tile: 1, tensors: 2 },
    ];
    migrate_v1_game(&mut game);
    assert_eq!(game.players[0].position, 23);
    assert_eq!(game.phase, Phase::OfferPurchase { tile: 23 });
    assert_eq!(game.pending_bank_auctions, vec![4]);
    assert_eq!(game.models[&1].owner, Some(0));
    assert_eq!(game.models[&1].tensors, 2);
    assert_eq!(game.models.len(), 16);
    assert_eq!(game.logs[0], GameLog::Moved { player: 0, position: 23 });
}

#[test]
fn upgrade_accepts_only_known_versions() {
    let game = Game::new(GameConfig::default()).unwrap();
    let envelope = |version: u32| SaveEnvelope {
        schema_version: version,
        id: "abc".into(),
        name: "Test".into(),
        updated_at_ms: 1,
        game: game.clone(),
    };
    assert_eq!(upgrade(envelope(3)).unwrap_err(), SaveError::UnsupportedVersion(3));
    let current = upgrade(envelope(SAVE_VERSION)).unwrap();
    assert_eq!(current.game, game);
    let old = upgrade(envelope(1)).unwrap();
    assert_eq!(old.schema_version, SAVE_VERSION);
    assert_eq!(summarize(&envelope(9)).error, Some("version 9".to_string()));
    assert_eq!(summarize(&envelope(2)).round, 1);
}

#[test]
fn saves_are_listed_newest_first() {
    let summary = |name: &str, time: u128| SaveSummary {
        id: name.into(),
        name: name.into(),
        updated_at_ms: time,
        round: 1,
        error: None,
    };
    let sorted = sort_newest_first(vec![
        summary("a", 5),
        summary("b", 9),
        summary("c", 5),
        summary("d", 1),
    ]);
    let names: Vec<&str> = sorted.iter().map(|save| save.name.as_str()).collect();
    assert_eq!(names, vec!["b", "a", "c", "d"]);
}
