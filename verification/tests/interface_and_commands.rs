use tensor_tycoon::catalog::Language;
use tensor_tycoon::commands::{parse_command, parse_i32, parse_usize, split_words, Command};
use tensor_tycoon::interface::{App, Key, LoadOrigin, Overlay, Request, Screen};
use tensor_tycoon::layout::board_coordinates;
use tensor_tycoon::startup::{parse, StartupAction};
use tensor_tycoon::saves::{summarize, SaveEnvelope};
use tensor_tycoon::state::{Action, Game, GameConfig, Phase};
use tensor_tycoon::view::{cell_title, centre_panel, holding_line, status_line};

#[test]
fn arguments_choose_what_to_run() {
    assert_eq!(parse(&vec![]), Ok(StartupAction::Run));
    assert_eq!(parse(&vec!["-h".to_string()]), Ok(StartupAction::Help));
    assert_eq!(parse(&vec!["--version".to_string()]), Ok(StartupAction::Version));
    let error = parse(&vec!["--help".to_string(), "extra".to_string()]).unwrap_err();
    assert_eq!(error.message(), "unexpected argument 'extra'");
    assert!(parse(&vec!["--unknown".to_string()]).is_err());
}

#[test]
fn commands_are_read_in_any_case() {
    assert_eq!(parse_command("ROLL"), Command::Roll);
    assert_eq!(parse_command("  bid   30 "), Command::Bid(Some(30)));
    assert_eq!(parse_command("bid x"), Command::Bid(None));
    assert_eq!(parse_command("tensor +5"), Command::Tensor(Some(5)));
    assert_eq!(parse_command("Save my  game"), Command::Save("my game".into()));
    assert_eq!(parse_command("load"), Command::Load(None));
    assert_eq!(parse_command("fly away"), Command::Unknown("fly".into()));
    assert_eq!(parse_command("   "), Command::Nothing);
    assert_eq!(parse_i32("-2147483648"), Some(i32::MIN));
    assert_eq!(parse_i32("2147483648"), None);
    assert_eq!(parse_usize("-1"), None);
    assert_eq!(parse_usize("+"), None);
    assert_eq!(split_words(" a  bc\td "), vec!["a", "bc", "d"]);
}

#[test]
fn keys_start_a_game() {
    let mut app = App::new(Language::En);
    assert_eq!(app.press(Key::Char('n'), false), Request::Nothing);
    assert_eq!(app.screen, Screen::NewGame);
    app.press(Key::Backspace, false);
    app.press(Key::Char('s'), false);
    assert_eq!(app.form.name, "Playes");
    app.press(Key::Down, false);
    app.press(Key::Right, false);
    app.press(Key::Right, false);
    app.press(Key::Right, false);
    assert_eq!(app.form.bots, 3);
    assert_eq!(app.press(Key::Enter, false), Request::StartGame);
    app.start_game(7);
    assert_eq!(app.screen, Screen::Game);
    let game = app.game.as_ref().unwrap();
    assert_eq!(game.players.len(), 4);
    assert_eq!(game.players[0].name, "Playes");
}

fn auction_app() -> App {
    let mut app = App::new(Language::ZhCn);
    app.press(Key::Enter, false);
    app.start_game(42);
    app.game.as_mut().unwrap().phase = Phase::OfferPurchase { tile: 1 };
    app.apply_action(Action::Decline);
    app
}

#[test]
fn auction_bid_shortcut_accepts_lowercase_and_uppercase_b() {
    for character in ['b', 'B'] {
        let mut app = auction_app();
        app.press(Key::Char(character), false);
        let auction = app.game.as_ref().unwrap().auction.as_ref().unwrap();
        assert!(auction.high_bid >= 10);
        assert_eq!(app.game.as_ref().unwrap().auction_actor(), Some(0));
    }
}

#[test]
fn auction_panel_shows_live_bid_state() {
    let mut app = auction_app();
    app.press(Key::Char('b'), false);
    let content = centre_panel(app.game.as_ref().unwrap(), app.language);
    assert!(content.contains("拍卖：Qwen3"));
    assert!(content.contains("当前最高价"));
    assert!(content.contains("下一最低价"));
    assert!(content.contains("轮到：Player"));
}

#[test]
fn loading_an_auction_advances_bot_bidders() {
    let mut game = Game::new(GameConfig::default()).unwrap();
    game.phase = Phase::OfferPurchase { tile: 1 };
    game.apply(Action::Decline).unwrap();
    game.apply(Action::AuctionBid(10)).unwrap();
    assert_eq!(game.auction_actor(), Some(1));
    let mut app = App::new(Language::En);
    let summary = summarize(&SaveEnvelope {
        schema_version: 2,
        id: "abc".into(),
        name: "auction".into(),
        updated_at_ms: 1,
        game: game.clone(),
    });
    app.show_saves(Ok(vec![summary]));
    assert_eq!(
        app.load_selected(),
        Request::LoadSave("abc".into(), LoadOrigin::List)
    );
    app.loaded(
        Ok(SaveEnvelope {
            schema_version: 2,
            id: "abc".into(),
            name: "auction".into(),
            updated_at_ms: 1,
            game,
        }),
        LoadOrigin::List,
    );
    assert_eq!(app.screen, Screen::Game);
    assert!(
        app.game.as_ref().unwrap().phase != Phase::Auction
            || app.game.as_ref().unwrap().auction_actor() == Some(0)
    );
}

#[test]
fn no_arguments_runs_the_game() {
    assert_eq!(parse(&vec![]), Ok(StartupAction::Run));
}

#[test]
fn recognizes_help_aliases() {
    assert_eq!(parse(&vec!["-h".to_string()]), Ok(StartupAction::Help));
    assert_eq!(parse(&vec!["--help".to_string()]), Ok(StartupAction::Help));
}

#[test]
fn recognizes_version_aliases() {
    assert_eq!(parse(&vec!["-v".to_string()]), Ok(StartupAction::Version));
    assert_eq!(parse(&vec!["--version".to_string()]), Ok(StartupAction::Version));
}

#[test]
fn rejects_unknown_and_extra_arguments() {
    assert!(parse(&vec!["--unknown".to_string()]).is_err());
    assert!(parse(&vec!["--help".to_string(), "extra".to_string()]).is_err());
    assert!(parse(&vec!["--version".to_string(), "--help".to_string()]).is_err());
}

#[test]
fn command_line_runs_typed_commands() {
    let mut app = App::new(Language::En);
    app.press(Key::Enter, false);
    app.start_game(3);
    app.press(Key::Char(':'), false);
    assert_eq!(app.overlay, Overlay::Command);
    for c in "status".chars() {
        app.press(Key::Char(c), false);
    }
    app.press(Key::Enter, false);
    assert_eq!(app.overlay, Overlay::Hidden);
    assert_eq!(app.message, "round 1/100 · phase AwaitRoll");
    app.press(Key::Char(':'), false);
    for c in "load abc".chars() {
        app.press(Key::Char(c), false);
    }
    assert_eq!(
        app.press(Key::Enter, false),
        Request::LoadSave("abc".into(), LoadOrigin::Command)
    );
}

#[test]
fn quitting_needs_confirmation() {
    let mut app = App::new(Language::En);
    app.press(Key::Char('q'), false);
    assert!(!app.should_quit);
    assert_eq!(app.message, "Press q again to quit");
    app.press(Key::Char('q'), false);
    assert!(app.should_quit);
}

#[test]
fn board_text_shows_names_holders_and_panels() {
    let mut game = Game::new(GameConfig::default()).unwrap();
    assert_eq!(cell_title(Language::En, 1), "1 Qwen3 0.6B");
    assert_eq!(cell_title(Language::En, 0), "0 ?");
    assert_eq!(holding_line(&game, 1), "¢100 ");
    game.models.get_mut(&1).unwrap().owner = Some(1);
    game.models.get_mut(&1).unwrap().tensors = 2;
    assert_eq!(holding_line(&game, 1), "P2 T2");
    assert_eq!(status_line(&game), "round 1/100 · phase AwaitRoll");
    assert_eq!(
        centre_panel(&game, Language::En),
        "Terminal Tycoon\n\nr roll · : command · s save · m models"
    );
    assert_eq!(board_coordinates(12), Some((6, 6)));
}

#[test]
fn new_game_form_starts_with_defaults() {
    let form = tensor_tycoon::interface::NewGameForm::default();
    assert_eq!(form.name, "Player");
    assert_eq!((form.bots, form.rounds, form.focus), (1, 100, 0));
    let app = App::new(Language::En);
    assert_eq!(app.form.name, form.name);
    assert_eq!(app.screen, Screen::Home);
}
