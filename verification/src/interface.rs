//! The terminal interface's state and how it answers keys and typed commands.
//! What needs the outside world (files, the clock) is returned as a request
//! for the program to carry out; the outcome is handed back to the state.
use vstd::prelude::*;
use vstd::string::*;
use crate::catalog::{model_at, Difficulty, Language, MODEL_COUNT};
use crate::playable::playable_credit_bound;
use crate::commands::{parse_command, parsed_command, Command};
use crate::play::played;
use crate::saves::{error_text, Preferences, SaveEnvelope, SaveError, SaveSummary};
use crate::setup::new_game;
use crate::state::{owned_tiles_among, Action, Game, GameConfig, GameError, Phase};
use crate::strings::{trim, trimmed};
use crate::text::{label_text, text};
use crate::view::{game_error_text, status_line, status_text};

verus! {

/// The screen the interface shows.
#[derive(Debug, Clone, Copy, PartialEq, Eq, Structural)]
pub enum Screen {
    Home,
    NewGame,
    Saves,
    Game,
}

/// A window drawn over the screen.
#[derive(Debug, Clone, Copy, PartialEq, Eq, Structural)]
pub enum Overlay {
    Hidden,
    Command,
    Models,
    Help,
}

/// A key the interface reacts to.
#[derive(Debug, Clone, Copy, PartialEq, Eq, Structural)]
pub enum Key {
    Char(char),
    Enter,
    Esc,
    Tab,
    BackTab,
    Up,
    Down,
    Left,
    Right,
    Backspace,
    Other,
}

/// Where a request to load a save came from.
#[derive(Debug, Clone, Copy, PartialEq, Eq, Structural)]
pub enum LoadOrigin {
    List,
    Command,
}

/// Work the interface needs from outside: files and the clock.
#[derive(Debug, Clone, PartialEq, Eq)]
pub enum Request {
    Nothing,
    StorePreferences(Preferences),
    ListSaves,
    StartGame,
    CreateSave(String),
    OverwriteSave(String, String),
    LoadSave(String, LoadOrigin),
    DeleteSave(String),
}

/// The settings being chosen for a new game.
#[derive(Debug, Clone)]
pub struct NewGameForm {
    pub name: String,
    pub bots: u8,
    pub rounds: u16,
    pub focus: usize,
}

impl Default for NewGameForm {
    /// The form as a new game starts: the human named "Player", one bot, a
    /// hundred rounds, the name field in focus.
    fn default() -> (form: Self)
        ensures
            form.name@ == "Player"@,
            form.bots == 1,
            form.rounds == 100,
            form.focus == 0,
    {
        NewGameForm { name: String::from_str("Player"), bots: 1, rounds: 100, focus: 0 }
    }
}

/// Everything the interface shows and remembers.
#[derive(Debug, Clone)]
pub struct App {
    pub screen: Screen,
    pub overlay: Overlay,
    pub language: Language,
    pub game: Option<Game>,
    pub form: NewGameForm,
    pub command: String,
    pub message: String,
    pub should_quit: bool,
    pub confirm_quit: bool,
    pub confirm_delete: bool,
    pub saves: Vec<SaveSummary>,
    pub save_selection: usize,
    pub model_selection: usize,
    pub current_save: Option<(String, String)>,
}

/// Appends one character to a string: `String::push`, which the standard
/// library documents as appending the character to the end of the string.
#[verifier::external_body]
fn push_char(s: &mut String, c: char)
    ensures
        final(s)@ == old(s)@.push(c),
{
    s.push(c);
}

/// The text without its last character (unchanged when empty).
fn without_last(s: &String) -> (t: String)
    ensures
        t@ == if s@.len() > 0 {
            s@.drop_last()
        } else {
            s@
        },
{
    let n = s.as_str().unicode_len();
    if n == 0 {
        return String::from_str(s.as_str());
    }
    let t = String::from_str(s.as_str().substring_char(0, n - 1));
    assert(t@ =~= s@.drop_last());
    t
}

/// The message shown when a game's state is out of the rules' reach.
pub open spec fn unplayable_text() -> Seq<char> {
    "the game cannot continue from this state"@
}

/// Whether the rules can play on from a game.
pub open spec fn playable(g: Game) -> bool {
    g.wf() && g.credits_at_most(playable_credit_bound())
}

/// What the interface's move `action` does to app `a`, giving app `b`: the
/// human's move and the bots' replies, with the refusal shown as the message.
pub open spec fn acted(a: App, b: App, action: Action) -> bool {
    match a.game {
        None => b == a,
        Some(g) => {
            &&& b == (App { game: b.game, message: b.message, ..a })
            &&& b.game matches Some(h) && if playable(g) {
                exists|r: Result<(), GameError>| #[trigger] played(g, h, action, r) && b.message@ == match r {
                    Ok(()) => Seq::<char>::empty(),
                    Err(e) => game_error_text(e),
                }
            } else {
                h == g && b.message@ == unplayable_text()
            }
        },
    }
}

/// Why the form's settings cannot start a game, if they cannot.
pub open spec fn start_refusal(form: NewGameForm) -> Option<Seq<char>> {
    if trim(form.name@).len() == 0 {
        Some("player name is empty"@)
    } else if !(1 <= form.bots <= 3) {
        Some("bot count must be 1..=3"@)
    } else if !(20 <= form.rounds <= 500) {
        Some("round limit must be 20..=500"@)
    } else {
        None
    }
}

/// The new-game form's fields within the ranges the keys keep them in.
pub open spec fn form_wf(form: NewGameForm) -> bool {
    &&& form.bots <= 3
    &&& form.rounds <= 500
    &&& form.focus < 3
}

/// What asking to quit does: quit when already asked once, else ask for confirmation.
pub open spec fn quit_outcome(a: App, b: App) -> bool {
    if a.confirm_quit {
        b == App { should_quit: true, ..a }
    } else {
        &&& b.message@ == label_text(a.language, "confirm_quit"@)
        &&& b == App { confirm_quit: true, message: b.message, ..a }
    }
}

/// What switching the language does, and the request to store the choice.
pub open spec fn toggle_outcome(a: App, b: App, request: Request) -> bool {
    &&& b.language == match a.language {
        Language::ZhCn => Language::En,
        Language::En => Language::ZhCn,
    }
    &&& b == App { language: b.language, ..a }
    &&& request == Request::StorePreferences(Preferences { language: b.language })
}

/// What choosing to load the selected save does.
pub open spec fn load_selected_outcome(a: App, b: App, request: Request) -> bool {
    if a.save_selection >= a.saves@.len() {
        request == Request::Nothing && b == a
    } else {
        let summary = a.saves@[a.save_selection as int];
        match summary.error {
            Some(e) => request == Request::Nothing && b.message@ == e@ && b == App { message: b.message, ..a },
            None => request == Request::LoadSave(summary.id, LoadOrigin::List) && b == a,
        }
    }
}

/// What choosing to delete the selected save does.
pub open spec fn delete_selected_outcome(a: App, b: App, request: Request) -> bool {
    if a.save_selection >= a.saves@.len() {
        request == Request::Nothing && b == a
    } else if a.confirm_delete {
        request == Request::DeleteSave(a.saves@[a.save_selection as int].id) && b == a
    } else {
        &&& request == Request::Nothing
        &&& b.message@ == label_text(a.language, "confirm_delete"@)
        &&& b == App { confirm_delete: true, message: b.message, ..a }
    }
}

/// What asking to save does, with an optional new name.
pub open spec fn save_game_outcome(a: App, b: App, name: Option<String>, request: Request) -> bool {
    if a.game is None {
        request == Request::Nothing && b == a
    } else {
        match name {
            Some(n) => request == Request::CreateSave(n) && b == a,
            None => match a.current_save {
                Some(save) => request == Request::OverwriteSave(save.0, save.1) && b == a,
                None => {
                    &&& request == Request::Nothing
                    &&& b.message@ == "save <name>"@
                    &&& b == App { message: b.message, ..a }
                },
            },
        }
    }
}

impl App {
    /// The interface's invariant: the form in range and selections inside their lists.
    pub open spec fn wf(&self) -> bool {
        &&& form_wf(self.form)
        &&& self.save_selection <= self.saves@.len()
        &&& self.model_selection <= MODEL_COUNT
    }

    /// The interface as it opens: the home screen in the saved language.
    pub fn new(language: Language) -> (app: App)
        ensures
            app.wf(),
            app.screen == Screen::Home,
            app.overlay == Overlay::Hidden,
            app.language == language,
            app.game is None,
            app.form.name@ == "Player"@,
            app.form.bots == 1,
            app.form.rounds == 100,
            app.form.focus == 0,
            app.command@.len() == 0,
            app.message@.len() == 0,
            !app.should_quit,
            !app.confirm_quit,
            !app.confirm_delete,
            app.saves@.len() == 0,
            app.save_selection == 0,
            app.model_selection == 0,
            app.current_save is None,
    {
        App {
            screen: Screen::Home,
            overlay: Overlay::Hidden,
            language,
            game: None,
            form: NewGameForm::default(),
            command: String::new(),
            message: String::new(),
            should_quit: false,
            confirm_quit: false,
            confirm_delete: false,
            saves: Vec::new(),
            save_selection: 0,
            model_selection: 0,
            current_save: None,
        }
    }

    /// Quits on the second request; the first asks for confirmation.
    pub fn confirm_or_quit(&mut self)
        ensures
            quit_outcome(*old(self), *final(self)),
    {
        if self.confirm_quit {
            self.should_quit = true;
        } else {
            self.confirm_quit = true;
            self.message = String::from_str(text(self.language, "confirm_quit"));
        }
    }

    /// Switches between Chinese and English, and asks to store the choice.
    pub fn toggle_language(&mut self) -> (request: Request)
        ensures
            toggle_outcome(*old(self), *final(self), request),
    {
        self.language = match self.language {
            Language::ZhCn => Language::En,
            Language::En => Language::ZhCn,
        };
        Request::StorePreferences(Preferences { language: self.language })
    }

    /// Takes the list of saves that was read (or the reason it could not be).
    pub fn show_saves(&mut self, listed: Result<Vec<SaveSummary>, SaveError>)
        requires
            old(self).wf(),
        ensures
            final(self).wf(),
            match listed {
                Ok(saves) => *final(self) == (App {
                    saves,
                    save_selection: if old(self).save_selection < saves@.len() {
                        old(self).save_selection
                    } else if saves@.len() > 0 {
                        (saves@.len() - 1) as usize
                    } else {
                        0
                    },
                    ..*old(self)
                }),
                Err(e) => final(self).message@ == error_text(e) && *final(self) == (App {
                    message: final(self).message,
                    ..*old(self)
                }),
            },
    {
        match listed {
            Ok(saves) => {
                let last = if saves.len() > 0 {
                    saves.len() - 1
                } else {
                    0
                };
                self.saves = saves;
                if self.save_selection > last {
                    self.save_selection = last;
                }
            },
            Err(e) => {
                self.message = e.message();
            },
        }
    }

    /// Starts a game from the form with the seed the clock gave; the name is
    /// trimmed, and the game is the standard difficulty.
    pub fn start_game(&mut self, seed: u64)
        requires
            old(self).wf(),
        ensures
            final(self).wf(),
            match start_refusal(old(self).form) {
                Some(message) => final(self).message@ == message && *final(self) == (App {
                    message: final(self).message,
                    ..*old(self)
                }),
                None => {
                    &&& final(self).game matches Some(g) && {
                        &&& g.wf()
                        &&& g.config.human_name@ == trim(old(self).form.name@)
                        &&& g.config == (GameConfig {
                            human_name: g.config.human_name,
                            bot_count: old(self).form.bots,
                            round_limit: old(self).form.rounds,
                            seed,
                            difficulty: Difficulty::Standard,
                        })
                        &&& new_game(g.config, g)
                    }
                    &&& final(self).message@.len() == 0
                    &&& *final(self) == (App {
                        game: final(self).game,
                        current_save: None,
                        screen: Screen::Game,
                        overlay: Overlay::Hidden,
                        message: final(self).message,
                        ..*old(self)
                    })
                },
            },
    {
        let config = GameConfig {
            human_name: trimmed(self.form.name.as_str()),
            bot_count: self.form.bots,
            round_limit: self.form.rounds,
            seed,
            difficulty: Difficulty::Standard,
        };
        proof { crate::strings::lemma_trim_twice(self.form.name@); }
        match Game::new(config) {
            Ok(game) => {
                self.game = Some(game);
                self.current_save = None;
                self.screen = Screen::Game;
                self.overlay = Overlay::Hidden;
                self.message = String::new();
            },
            Err(e) => {
                self.message = e.message();
            },
        }
    }
}

/// What the bots do to a game that was just loaded: they move while it is
/// their turn; `r` is how their run ended, or `None` when the game could not
/// be played.
pub open spec fn bots_caught_up(g: Game, h: Game, r: Option<Result<(), GameError>>) -> bool {
    if playable(g) {
        r matches Some(x) && exists|trace: Seq<Game>| #[trigger] crate::bots::drove(g, h, x, trace)
    } else {
        h == g && r is None
    }
}

/// The message shown once a save was written.
pub open spec fn saved_text(language: Language) -> Seq<char> {
    match language {
        Language::ZhCn => "游戏已保存"@,
        Language::En => "Game saved"@,
    }
}

/// Lets the bots move in a game that was just loaded, if it can be played.
fn catch_up(game: &mut Game) -> (outcome: Option<Result<(), GameError>>)
    ensures
        bots_caught_up(*old(game), *final(game), outcome),
{
    if game.is_playable() {
        Some(crate::bots::drive_bots(game))
    } else {
        None
    }
}

impl App {
    /// Plays the human's move and the bots' replies; a refusal becomes the message.
    pub fn apply_action(&mut self, action: Action)
        requires
            old(self).wf(),
        ensures
            final(self).wf(),
            acted(*old(self), *final(self), action),
    {
        let mut game = match self.game.take() {
            Some(g) => g,
            None => return ,
        };
        if !game.is_playable() {
            self.game = Some(game);
            self.message = String::from_str("the game cannot continue from this state");
            return ;
        }
        let result = game.play(action);
        self.game = Some(game);
        match result {
            Ok(()) => {
                self.message = String::new();
            },
            Err(e) => {
                self.message = e.message();
            },
        }
    }

    /// Saves the game: again under its save when it has one and no name is
    /// given, or as a new save under the given name.
    pub fn save_game(&mut self, name: Option<String>) -> (request: Request)
        requires
            old(self).wf(),
        ensures
            final(self).wf(),
            save_game_outcome(*old(self), *final(self), name, request),
    {
        if self.game.is_none() {
            return Request::Nothing;
        }
        match name {
            Some(n) => Request::CreateSave(n),
            None => match &self.current_save {
                Some(save) => Request::OverwriteSave(save.0.clone(), save.1.clone()),
                None => {
                    self.message = String::from_str("save <name>");
                    Request::Nothing
                },
            },
        }
    }

    /// Takes the outcome of writing a save: its id and name, or the error.
    pub fn saved(&mut self, result: Result<(String, String), SaveError>)
        requires
            old(self).wf(),
        ensures
            final(self).wf(),
            match result {
                Ok(save) => final(self).message@ == saved_text(old(self).language) && *final(self) == (App {
                    current_save: Some(save),
                    message: final(self).message,
                    ..*old(self)
                }),
                Err(e) => final(self).message@ == error_text(e) && *final(self) == (App {
                    message: final(self).message,
                    ..*old(self)
                }),
            },
    {
        match result {
            Ok(save) => {
                self.current_save = Some(save);
                self.message = match self.language {
                    Language::ZhCn => String::from_str("游戏已保存"),
                    Language::En => String::from_str("Game saved"),
                };
            },
            Err(e) => {
                self.message = e.message();
            },
        }
    }

    /// Asks to load the save selected in the list, unless it could not be read.
    pub fn load_selected(&mut self) -> (request: Request)
        requires
            old(self).wf(),
        ensures
            final(self).wf(),
            load_selected_outcome(*old(self), *final(self), request),
    {
        if self.save_selection >= self.saves.len() {
            return Request::Nothing;
        }
        let summary = &self.saves[self.save_selection];
        match &summary.error {
            Some(e) => {
                let shown = e.clone();
                self.message = shown;
                Request::Nothing
            },
            None => Request::LoadSave(summary.id.clone(), LoadOrigin::List),
        }
    }

    /// Takes the outcome of reading a save. A save chosen from the list opens
    /// the game screen; either way the bots catch up if it is their turn.
    #[verifier::rlimit(30)]
    pub fn loaded(&mut self, result: Result<SaveEnvelope, SaveError>, origin: LoadOrigin)
        requires
            old(self).wf(),
        ensures
            final(self).wf(),
            match result {
                Err(e) => final(self).message@ == error_text(e) && *final(self) == (App {
                    message: final(self).message,
                    ..*old(self)
                }),
                Ok(envelope) => final(self).game matches Some(h) && exists|r: Option<Result<(), GameError>>|
                    #[trigger] bots_caught_up(envelope.game, h, r) && {
                    let shown = match origin {
                        LoadOrigin::List => match r {
                            Some(Err(e)) => game_error_text(e),
                            None => unplayable_text(),
                            _ => old(self).message@,
                        },
                        LoadOrigin::Command => old(self).message@,
                    };
                    &&& final(self).message@ == shown
                    &&& final(self).current_save == Some((envelope.id, envelope.name))
                    &&& final(self).screen == match origin {
                        LoadOrigin::List => Screen::Game,
                        LoadOrigin::Command => old(self).screen,
                    }
                    &&& final(self).overlay == match origin {
                        LoadOrigin::List => Overlay::Hidden,
                        LoadOrigin::Command => old(self).overlay,
                    }
                    &&& *final(self) == (App {
                        game: final(self).game,
                        message: final(self).message,
                        current_save: final(self).current_save,
                        screen: final(self).screen,
                        overlay: final(self).overlay,
                        ..*old(self)
                    })
                },
            },
    {
        match result {
            Err(e) => {
                self.message = e.message();
            },
            Ok(envelope) => {
                let SaveEnvelope { schema_version: _, id, name, updated_at_ms: _, game } = envelope;
                let mut game = game;
                let outcome = catch_up(&mut game);
                match origin {
                    LoadOrigin::List => {
                        self.screen = Screen::Game;
                        self.overlay = Overlay::Hidden;
                        match outcome {
                            Some(Err(e)) => {
                                self.message = e.message();
                            },
                            None => {
                                self.message = String::from_str("the game cannot continue from this state");
                            },
                            _ => {},
                        }
                    },
                    LoadOrigin::Command => {},
                }
                self.current_save = Some((id, name));
                self.game = Some(game);
            },
        }
    }

    /// Deletes the selected save on the second request; the first asks for confirmation.
    pub fn delete_selected(&mut self) -> (request: Request)
        requires
            old(self).wf(),
        ensures
            final(self).wf(),
            delete_selected_outcome(*old(self), *final(self), request),
    {
        if self.save_selection >= self.saves.len() {
            return Request::Nothing;
        }
        if !self.confirm_delete {
            self.confirm_delete = true;
            self.message = String::from_str(text(self.language, "confirm_delete"));
            return Request::Nothing;
        }
        Request::DeleteSave(self.saves[self.save_selection].id.clone())
    }

    /// Takes the outcome of deleting save `id`; after a deletion the list is read again.
    pub fn deleted(&mut self, id: &String, result: Result<(), SaveError>) -> (request: Request)
        requires
            old(self).wf(),
        ensures
            final(self).wf(),
            match result {
                Ok(()) => {
                    &&& request == Request::ListSaves
                    &&& final(self).message@.len() == 0
                    &&& final(self).current_save == match old(self).current_save {
                        Some(save) => if save.0@ == id@ {
                            None
                        } else {
                            Some(save)
                        },
                        None => None,
                    }
                    &&& *final(self) == (App {
                        message: final(self).message,
                        current_save: final(self).current_save,
                        confirm_delete: false,
                        ..*old(self)
                    })
                },
                Err(e) => request == Request::Nothing && final(self).message@ == error_text(e) && *final(self) == (App {
                    message: final(self).message,
                    ..*old(self)
                }),
            },
    {
        match result {
            Ok(()) => {
                let current = match &self.current_save {
                    Some(save) => crate::strings::same_text(save.0.as_str(), id.as_str()),
                    None => false,
                };
                if current {
                    self.current_save = None;
                }
                self.message = String::new();
                self.confirm_delete = false;
                Request::ListSaves
            },
            Err(e) => {
                self.message = e.message();
                Request::Nothing
            },
        }
    }
}

/// The form after a key on the new-game screen (other than Esc and Enter).
pub open spec fn form_after(f: NewGameForm, g: NewGameForm, key: Key) -> bool {
    let name = g.name@;
    let same = NewGameForm { name: f.name, ..g };
    match key {
        Key::Tab | Key::Down => name == f.name@ && same == (NewGameForm { focus: ((f.focus + 1) % 3) as usize, ..f }),
        Key::BackTab | Key::Up => name == f.name@ && same == (NewGameForm { focus: ((f.focus + 2) % 3) as usize, ..f }),
        Key::Left => name == f.name@ && same == if f.focus == 1 {
            NewGameForm { bots: if f.bots <= 1 { 1 } else { (f.bots - 1) as u8 }, ..f }
        } else if f.focus == 2 {
            NewGameForm { rounds: if f.rounds <= 40 { 20 } else { (f.rounds - 20) as u16 }, ..f }
        } else {
            f
        },
        Key::Right => name == f.name@ && same == if f.focus == 1 {
            NewGameForm { bots: if f.bots >= 3 { 3 } else { (f.bots + 1) as u8 }, ..f }
        } else if f.focus == 2 {
            NewGameForm { rounds: if f.rounds >= 480 { 500 } else { (f.rounds + 20) as u16 }, ..f }
        } else {
            f
        },
        Key::Char(c) => if c == '-' && f.focus == 2 {
            name == f.name@ && same == (NewGameForm {
                rounds: if f.rounds <= 21 { 20 } else { (f.rounds - 1) as u16 },
                ..f
            })
        } else if (c == '+' || c == '=') && f.focus == 2 {
            name == f.name@ && same == (NewGameForm { rounds: if f.rounds >= 500 { 500 } else { (f.rounds + 1) as u16 }, ..f })
        } else if f.focus == 0 && f.name@.len() < 24 {
            name == f.name@.push(c) && same == f
        } else {
            name == f.name@ && same == f
        },
        Key::Backspace => same == f && name == if f.focus == 0 && f.name@.len() > 0 {
            f.name@.drop_last()
        } else {
            f.name@
        },
        _ => name == f.name@ && same == f,
    }
}

/// The move a key asks for on the game screen, if the phase allows it.
pub open spec fn game_key_action(game: Option<Game>, key: Key) -> Option<Action> {
    match game {
        None => None,
        Some(g) => {
            let human_turn = g.auction matches Some(a) && a.bidder_index < a.active@.len()
                && a.active@[a.bidder_index as int] == 0;
            let minimum = match g.auction {
                Some(a) => if a.high_bid == 0 {
                    10
                } else if a.high_bid <= i32::MAX - 10 {
                    (a.high_bid + 10) as i32
                } else {
                    i32::MAX
                },
                None => 10,
            };
            match key {
                Key::Char(c) => if c == 'r' && g.phase == Phase::AwaitRoll {
                    Some(Action::Roll)
                } else if c == 'p' && g.phase is OfferPurchase {
                    Some(Action::Buy)
                } else if c == 'a' && g.phase is OfferPurchase {
                    Some(Action::Decline)
                } else if (c == 'b' || c == 'B') && g.phase == Phase::Auction && human_turn {
                    Some(Action::AuctionBid(minimum))
                } else if (c == 'a' || c == 'A') && g.phase == Phase::Auction && human_turn {
                    Some(Action::AuctionPass)
                } else if c == 'e' && g.phase == Phase::Manage {
                    Some(Action::EndTurn)
                } else if (c == '1' || c == '2' || c == '3') && g.phase == Phase::ChooseCard {
                    Some(Action::PickCard(choice_of(c)))
                } else if (c == '1' || c == '2' || c == '3') && g.phase == Phase::AwaitRoll && g.config.difficulty
                    == Difficulty::Easy {
                    Some(Action::PickRoll(choice_of(c)))
                } else {
                    None
                },
                _ => None,
            }
        },
    }
}

/// The option a digit key picks: `1`, `2` or `3` for the first, second or third.
pub open spec fn choice_of(c: char) -> u8 {
    if c == '1' {
        0
    } else if c == '2' {
        1
    } else {
        2
    }
}

/// The tiles the human owns, in roster order, as the model manager lists them.
pub open spec fn owned_list(a: App) -> Seq<usize> {
    match a.game {
        Some(g) => if playable(g) {
            owned_tiles_among(g.models@, 0, MODEL_COUNT as int)
        } else {
            Seq::empty()
        },
        None => Seq::empty(),
    }
}

/// The move a key asks for in the model manager, on the selected model.
pub open spec fn model_key_action(a: App, key: Key) -> Option<Action> {
    let owned = owned_list(a);
    if a.model_selection < owned.len() {
        let tile = owned[a.model_selection as int];
        match key {
            Key::Char(c) => if c == '+' || c == 't' {
                Some(Action::AllocateTensor(tile))
            } else if c == '-' || c == 'x' {
                Some(Action::ReleaseTensor(tile))
            } else if c == 'a' {
                Some(Action::Archive(tile))
            } else if c == 'r' {
                Some(Action::Restore(tile))
            } else {
                None
            },
            _ => None,
        }
    } else {
        None
    }
}

/// What a typed command does to app `a`, giving app `b` and a request.
pub open spec fn command_effect(a: App, b: App, c: Command, request: Request) -> bool {
    let usage = |text: Seq<char>| request == Request::Nothing && b.message@ == text && b == (App {
        message: b.message,
        ..a
    });
    let act = |action: Action| request == Request::Nothing && acted(a, b, action);
    match c {
        Command::Nothing => request == Request::Nothing && b == a,
        Command::Roll => act(Action::Roll),
        Command::Buy => act(Action::Buy),
        Command::PassOrDecline => act(
            if a.game matches Some(g) && g.phase == Phase::Auction {
                Action::AuctionPass
            } else {
                Action::Decline
            },
        ),
        Command::Bid(amount) => match amount {
            Some(x) => act(Action::AuctionBid(x)),
            None => usage("bid <amount>"@),
        },
        Command::End => act(Action::EndTurn),
        Command::PayCooldown => act(Action::PayCooldown),
        Command::UseBypass => act(Action::UseBypass),
        Command::Tensor(tile) => match tile {
            Some(t) => act(Action::AllocateTensor(t)),
            None => usage("tensor <tile>"@),
        },
        Command::Untensor(tile) => match tile {
            Some(t) => act(Action::ReleaseTensor(t)),
            None => usage("untensor <tile>"@),
        },
        Command::Archive(tile) => match tile {
            Some(t) => act(Action::Archive(t)),
            None => usage("archive <tile>"@),
        },
        Command::Restore(tile) => match tile {
            Some(t) => act(Action::Restore(t)),
            None => usage("restore <tile>"@),
        },
        Command::Save(name) => save_game_outcome(a, b, if name@.len() == 0 { None } else { Some(name) }, request),
        Command::Load(id) => match id {
            Some(x) => request == Request::LoadSave(x, LoadOrigin::Command) && b == a,
            None => usage("load <id>"@),
        },
        Command::Status => match a.game {
            Some(g) => usage(status_text(g)),
            None => request == Request::Nothing && b == a,
        },
        Command::Help => request == Request::Nothing && b == (App { overlay: Overlay::Help, ..a }),
        Command::Quit => request == Request::Nothing && quit_outcome(a, b),
        Command::Unknown(word) => usage("unknown command: "@ + word@),
    }
}

impl App {
    /// Carries out a typed command.
    pub fn execute_command(&mut self, input: &str) -> (request: Request)
        requires
            old(self).wf(),
        ensures
            final(self).wf(),
            exists|c: Command| #[trigger] parsed_command(input@, c) && command_effect(*old(self), *final(self), c, request),
    {
        let command = parse_command(input);
        let ghost parsed = command;
        match command {
            Command::Nothing => Request::Nothing,
            Command::Roll => {
                self.apply_action(Action::Roll);
                Request::Nothing
            },
            Command::Buy => {
                self.apply_action(Action::Buy);
                Request::Nothing
            },
            Command::PassOrDecline => {
                let auction = match &self.game {
                    Some(g) => g.phase == Phase::Auction,
                    None => false,
                };
                self.apply_action(if auction {
                    Action::AuctionPass
                } else {
                    Action::Decline
                });
                Request::Nothing
            },
            Command::Bid(amount) => {
                match amount {
                    Some(x) => self.apply_action(Action::AuctionBid(x)),
                    None => {
                        self.message = String::from_str("bid <amount>");
                    },
                }
                Request::Nothing
            },
            Command::End => {
                self.apply_action(Action::EndTurn);
                Request::Nothing
            },
            Command::PayCooldown => {
                self.apply_action(Action::PayCooldown);
                Request::Nothing
            },
            Command::UseBypass => {
                self.apply_action(Action::UseBypass);
                Request::Nothing
            },
            Command::Tensor(tile) => {
                match tile {
                    Some(t) => self.apply_action(Action::AllocateTensor(t)),
                    None => {
                        self.message = String::from_str("tensor <tile>");
                    },
                }
                Request::Nothing
            },
            Command::Untensor(tile) => {
                match tile {
                    Some(t) => self.apply_action(Action::ReleaseTensor(t)),
                    None => {
                        self.message = String::from_str("untensor <tile>");
                    },
                }
                Request::Nothing
            },
            Command::Archive(tile) => {
                match tile {
                    Some(t) => self.apply_action(Action::Archive(t)),
                    None => {
                        self.message = String::from_str("archive <tile>");
                    },
                }
                Request::Nothing
            },
            Command::Restore(tile) => {
                match tile {
                    Some(t) => self.apply_action(Action::Restore(t)),
                    None => {
                        self.message = String::from_str("restore <tile>");
                    },
                }
                Request::Nothing
            },
            Command::Save(name) => {
                let empty = name.as_str().unicode_len() == 0;
                self.save_game(if empty {
                    None
                } else {
                    Some(name)
                })
            },
            Command::Load(id) => match id {
                Some(x) => Request::LoadSave(x, LoadOrigin::Command),
                None => {
                    self.message = String::from_str("load <id>");
                    Request::Nothing
                },
            },
            Command::Status => {
                match &self.game {
                    Some(g) => {
                        let line = status_line(g);
                        self.message = line;
                    },
                    None => {},
                }
                Request::Nothing
            },
            Command::Help => {
                self.overlay = Overlay::Help;
                Request::Nothing
            },
            Command::Quit => {
                self.confirm_or_quit();
                Request::Nothing
            },
            Command::Unknown(word) => {
                let mut text = String::from_str("unknown command: ");
                text.append(word.as_str());
                self.message = text;
                Request::Nothing
            },
        }
    }
}

/// What a key does on the home screen.
pub open spec fn home_outcome(a: App, b: App, key: Key, request: Request) -> bool {
    match key {
        Key::Enter => request == Request::Nothing && b == (App { screen: Screen::NewGame, ..a }),
        Key::Esc => request == Request::Nothing && quit_outcome(a, b),
        Key::Char(c) => if c == 'n' {
            request == Request::Nothing && b == (App { screen: Screen::NewGame, ..a })
        } else if c == 'o' {
            request == Request::ListSaves && b == (App { screen: Screen::Saves, ..a })
        } else if c == 'l' {
            toggle_outcome(a, b, request)
        } else if c == '?' {
            request == Request::Nothing && b == (App { overlay: Overlay::Help, ..a })
        } else if c == 'q' {
            request == Request::Nothing && quit_outcome(a, b)
        } else {
            request == Request::Nothing && b == a
        },
        _ => request == Request::Nothing && b == a,
    }
}

/// What a key does on the new-game screen.
pub open spec fn new_game_outcome(a: App, b: App, key: Key, request: Request) -> bool {
    match key {
        Key::Esc => request == Request::Nothing && b == (App { screen: Screen::Home, ..a }),
        Key::Enter => request == Request::StartGame && b == a,
        _ => request == Request::Nothing && form_after(a.form, b.form, key) && b == (App { form: b.form, ..a }),
    }
}

/// What a key does on the save list (after any pending deletion is cancelled).
pub open spec fn saves_outcome(a: App, b: App, key: Key, request: Request) -> bool {
    let c = App { confirm_delete: false, ..a };
    match key {
        Key::Esc => request == Request::Nothing && b == (App { screen: Screen::Home, ..c }),
        Key::Up => request == Request::Nothing && b == (App {
            save_selection: if c.save_selection > 0 { (c.save_selection - 1) as usize } else { 0 },
            ..c
        }),
        Key::Down => request == Request::Nothing && b == (App {
            save_selection: if c.save_selection + 1 < c.saves@.len() {
                (c.save_selection + 1) as usize
            } else if c.saves@.len() > 0 {
                (c.saves@.len() - 1) as usize
            } else {
                0
            },
            ..c
        }),
        Key::Enter => load_selected_outcome(c, b, request),
        Key::Char(ch) => if ch == 'd' {
            &&& request == Request::Nothing
            &&& b.message@ == label_text(a.language, "confirm_delete"@)
            &&& b == (App { confirm_delete: true, message: b.message, ..a })
        } else if ch == 'l' {
            toggle_outcome(c, b, request)
        } else {
            request == Request::Nothing && b == c
        },
        _ => request == Request::Nothing && b == c,
    }
}

/// What a key does on the game screen.
pub open spec fn game_screen_outcome(a: App, b: App, key: Key, request: Request) -> bool {
    match key {
        Key::Esc => request == Request::Nothing && quit_outcome(a, b),
        Key::Char(c) if c == ':' => request == Request::Nothing && b.command@.len() == 0 && b == (App {
            overlay: Overlay::Command,
            command: b.command,
            ..a
        }),
        Key::Char(c) if c == '?' => request == Request::Nothing && b == (App { overlay: Overlay::Help, ..a }),
        Key::Char(c) if c == 'l' => toggle_outcome(a, b, request),
        Key::Char(c) if c == 'm' => request == Request::Nothing && b == (App {
            overlay: Overlay::Models,
            model_selection: 0,
            ..a
        }),
        Key::Char(c) if c == 's' => if a.current_save is Some {
            save_game_outcome(a, b, None, request)
        } else {
            request == Request::Nothing && b.command@ == "save "@ && b == (App {
                overlay: Overlay::Command,
                command: b.command,
                ..a
            })
        },
        _ => match game_key_action(a.game, key) {
            Some(action) => request == Request::Nothing && acted(a, b, action),
            None => if key == Key::Char('q') {
                request == Request::Nothing && quit_outcome(a, b)
            } else {
                request == Request::Nothing && b == (App { confirm_quit: false, ..a })
            },
        },
    }
}

/// What a key does in the model manager.
pub open spec fn models_outcome(a: App, b: App, key: Key) -> bool {
    let owned = owned_list(a);
    match key {
        Key::Esc => b == (App { overlay: Overlay::Hidden, ..a }),
        Key::Char(c) if c == 'm' => b == (App { overlay: Overlay::Hidden, ..a }),
        Key::Up => b == (App {
            model_selection: if a.model_selection > 0 { (a.model_selection - 1) as usize } else { 0 },
            ..a
        }),
        Key::Down => b == (App {
            model_selection: if a.model_selection + 1 < owned.len() {
                (a.model_selection + 1) as usize
            } else if owned.len() > 0 {
                (owned.len() - 1) as usize
            } else {
                0
            },
            ..a
        }),
        _ => match model_key_action(a, key) {
            Some(action) => acted(a, b, action),
            None => b == a,
        },
    }
}

/// What a key does in the command line.
pub open spec fn command_line_outcome(a: App, b: App, key: Key, request: Request) -> bool {
    match key {
        Key::Esc => request == Request::Nothing && b == (App { overlay: Overlay::Hidden, ..a }),
        Key::Backspace => request == Request::Nothing && b.command@ == (if a.command@.len() > 0 {
            a.command@.drop_last()
        } else {
            a.command@
        }) && b == (App { command: b.command, ..a }),
        Key::Enter => exists|cleared: App, c: Command| {
            &&& cleared.command@.len() == 0
            &&& cleared == (App { overlay: Overlay::Hidden, command: cleared.command, ..a })
            &&& parsed_command(trim(a.command@), c)
            &&& #[trigger] command_effect(cleared, b, c, request)
        },
        Key::Char(c) => request == Request::Nothing && if a.command@.len() < 80 {
            b.command@ == a.command@.push(c) && b == (App { command: b.command, ..a })
        } else {
            b == a
        },
        _ => request == Request::Nothing && b == a,
    }
}

impl App {
    /// Answers a key on the home screen.
    pub fn handle_home_key(&mut self, key: Key) -> (request: Request)
        requires
            old(self).wf(),
        ensures
            final(self).wf(),
            home_outcome(*old(self), *final(self), key, request),
    {
        match key {
            Key::Enter => {
                self.screen = Screen::NewGame;
                Request::Nothing
            },
            Key::Esc => {
                self.confirm_or_quit();
                Request::Nothing
            },
            Key::Char(c) => {
                if c == 'n' {
                    self.screen = Screen::NewGame;
                    Request::Nothing
                } else if c == 'o' {
                    self.screen = Screen::Saves;
                    Request::ListSaves
                } else if c == 'l' {
                    self.toggle_language()
                } else if c == '?' {
                    self.overlay = Overlay::Help;
                    Request::Nothing
                } else if c == 'q' {
                    self.confirm_or_quit();
                    Request::Nothing
                } else {
                    Request::Nothing
                }
            },
            _ => Request::Nothing,
        }
    }

    /// Answers a key on the new-game screen: moving between the fields,
    /// changing them within their ranges, typing the name, starting or leaving.
    pub fn handle_new_game_key(&mut self, key: Key) -> (request: Request)
        requires
            old(self).wf(),
        ensures
            final(self).wf(),
            new_game_outcome(*old(self), *final(self), key, request),
    {
        match key {
            Key::Esc => {
                self.screen = Screen::Home;
            },
            Key::Enter => {
                return Request::StartGame;
            },
            Key::Tab | Key::Down => {
                self.form.focus = (self.form.focus + 1) % 3;
            },
            Key::BackTab | Key::Up => {
                self.form.focus = (self.form.focus + 2) % 3;
            },
            Key::Left => {
                if self.form.focus == 1 {
                    self.form.bots = if self.form.bots <= 1 {
                        1
                    } else {
                        self.form.bots - 1
                    };
                } else if self.form.focus == 2 {
                    self.form.rounds = if self.form.rounds <= 40 {
                        20
                    } else {
                        self.form.rounds - 20
                    };
                }
            },
            Key::Right => {
                if self.form.focus == 1 {
                    self.form.bots = if self.form.bots >= 3 {
                        3
                    } else {
                        self.form.bots + 1
                    };
                } else if self.form.focus == 2 {
                    self.form.rounds = if self.form.rounds >= 480 {
                        500
                    } else {
                        self.form.rounds + 20
                    };
                }
            },
            Key::Char(c) => {
                if c == '-' && self.form.focus == 2 {
                    self.form.rounds = if self.form.rounds <= 21 {
                        20
                    } else {
                        self.form.rounds - 1
                    };
                } else if (c == '+' || c == '=') && self.form.focus == 2 {
                    self.form.rounds = if self.form.rounds >= 500 {
                        500
                    } else {
                        self.form.rounds + 1
                    };
                } else if self.form.focus == 0 && self.form.name.as_str().unicode_len() < 24 {
                    push_char(&mut self.form.name, c);
                }
            },
            Key::Backspace => {
                if self.form.focus == 0 {
                    self.form.name = without_last(&self.form.name);
                }
            },
            _ => {},
        }
        Request::Nothing
    }

    /// Answers a key on the save list; any key but a delete cancels a pending deletion.
    pub fn handle_saves_key(&mut self, key: Key) -> (request: Request)
        requires
            old(self).wf(),
        ensures
            final(self).wf(),
            saves_outcome(*old(self), *final(self), key, request),
    {
        self.confirm_delete = false;
        match key {
            Key::Esc => {
                self.screen = Screen::Home;
                Request::Nothing
            },
            Key::Up => {
                if self.save_selection > 0 {
                    self.save_selection = self.save_selection - 1;
                }
                Request::Nothing
            },
            Key::Down => {
                let last = if self.saves.len() > 0 {
                    self.saves.len() - 1
                } else {
                    0
                };
                self.save_selection = if self.save_selection < last {
                    self.save_selection + 1
                } else {
                    last
                };
                Request::Nothing
            },
            Key::Enter => self.load_selected(),
            Key::Char(c) => {
                if c == 'd' {
                    self.confirm_delete = true;
                    self.message = String::from_str(text(self.language, "confirm_delete"));
                    Request::Nothing
                } else if c == 'l' {
                    self.toggle_language()
                } else {
                    Request::Nothing
                }
            },
            _ => Request::Nothing,
        }
    }
}

/// The move a key asks for on the game screen, if the phase allows it.
fn chosen_game_action(game: &Option<Game>, key: Key) -> (action: Option<Action>)
    ensures
        action == game_key_action(*game, key),
{
    let g = match game {
        Some(g) => g,
        None => return None,
    };
    let c = match key {
        Key::Char(c) => c,
        _ => return None,
    };
    let human_turn = match g.auction_actor() {
        Some(actor) => actor == 0,
        None => false,
    };
    let minimum: i32 = match &g.auction {
        Some(a) => if a.high_bid == 0 {
            10
        } else {
            match a.high_bid.checked_add(10) {
                Some(m) => m,
                None => i32::MAX,
            }
        },
        None => 10,
    };
    let offer = match g.phase {
        Phase::OfferPurchase { .. } => true,
        _ => false,
    };
    let easy = match g.config.difficulty {
        Difficulty::Easy => true,
        Difficulty::Standard => false,
    };
    if c == 'r' && g.phase == Phase::AwaitRoll {
        Some(Action::Roll)
    } else if c == 'p' && offer {
        Some(Action::Buy)
    } else if c == 'a' && offer {
        Some(Action::Decline)
    } else if (c == 'b' || c == 'B') && g.phase == Phase::Auction && human_turn {
        Some(Action::AuctionBid(minimum))
    } else if (c == 'a' || c == 'A') && g.phase == Phase::Auction && human_turn {
        Some(Action::AuctionPass)
    } else if c == 'e' && g.phase == Phase::Manage {
        Some(Action::EndTurn)
    } else if (c == '1' || c == '2' || c == '3') && g.phase == Phase::ChooseCard {
        Some(Action::PickCard(if c == '1' { 0 } else if c == '2' { 1 } else { 2 }))
    } else if (c == '1' || c == '2' || c == '3') && g.phase == Phase::AwaitRoll && easy {
        Some(Action::PickRoll(if c == '1' { 0 } else if c == '2' { 1 } else { 2 }))
    } else {
        None
    }
}

impl App {
    /// Plays the move a game-screen key asks for; `q` asks to quit, and any
    /// other key withdraws a pending request to quit.
    fn game_move_or_quit(&mut self, key: Key)
        requires
            old(self).wf(),
        ensures
            final(self).wf(),
            match game_key_action(old(self).game, key) {
                Some(action) => acted(*old(self), *final(self), action),
                None => if key == Key::Char('q') {
                    quit_outcome(*old(self), *final(self))
                } else {
                    *final(self) == (App { confirm_quit: false, ..*old(self) })
                },
            },
    {
        match chosen_game_action(&self.game, key) {
            Some(action) => self.apply_action(action),
            None => {
                if key == Key::Char('q') {
                    self.confirm_or_quit();
                } else {
                    self.confirm_quit = false;
                }
            },
        }
    }

    /// Answers a key on the game screen.
    pub fn handle_game_key(&mut self, key: Key) -> (request: Request)
        requires
            old(self).wf(),
        ensures
            final(self).wf(),
            game_screen_outcome(*old(self), *final(self), key, request),
    {
        match key {
            Key::Esc => {
                self.confirm_or_quit();
                Request::Nothing
            },
            Key::Char(c) => {
                if c == ':' {
                    self.overlay = Overlay::Command;
                    self.command = String::new();
                    Request::Nothing
                } else if c == '?' {
                    self.overlay = Overlay::Help;
                    Request::Nothing
                } else if c == 'l' {
                    self.toggle_language()
                } else if c == 'm' {
                    self.overlay = Overlay::Models;
                    self.model_selection = 0;
                    Request::Nothing
                } else if c == 's' {
                    if self.current_save.is_some() {
                        self.save_game(None)
                    } else {
                        self.overlay = Overlay::Command;
                        self.command = String::from_str("save ");
                        Request::Nothing
                    }
                } else {
                    self.game_move_or_quit(key);
                    Request::Nothing
                }
            },
            _ => {
                self.game_move_or_quit(key);
                Request::Nothing
            },
        }
    }

    /// The tiles the human owns, in roster order.
    pub fn owned_tiles(&self) -> (tiles: Vec<usize>)
        ensures
            tiles@ == owned_list(*self),
    {
        let mut tiles: Vec<usize> = Vec::new();
        let g = match &self.game {
            Some(g) => g,
            None => return tiles,
        };
        if !g.is_playable() {
            return tiles;
        }
        let mut i: usize = 0;
        proof { crate::sums::lemma_roster_tiles(); }
        while i < MODEL_COUNT
            invariant
                g.wf(),
                i <= MODEL_COUNT,
                tiles@ == owned_tiles_among(g.models@, 0, i as int),
            decreases MODEL_COUNT - i,
        {
            let tile = model_at(i).tile;
            let state = g.read_model(tile);
            let owned = match state.owner {
                Some(o) => o == 0,
                None => false,
            };
            if owned {
                tiles.push(tile);
            }
            i = i + 1;
        }
        tiles
    }

    /// Answers a key in the model manager: moving the selection and managing
    /// the selected model.
    pub fn handle_models_key(&mut self, key: Key)
        requires
            old(self).wf(),
        ensures
            final(self).wf(),
            models_outcome(*old(self), *final(self), key),
    {
        let owned = self.owned_tiles();
        proof {
            if self.game is Some && playable(self.game->0) {
                lemma_owned_count(self.game->0.models@, MODEL_COUNT as int);
            }
        }
        match key {
            Key::Esc => {
                self.overlay = Overlay::Hidden;
            },
            Key::Up => {
                if self.model_selection > 0 {
                    self.model_selection = self.model_selection - 1;
                }
            },
            Key::Down => {
                let last = if owned.len() > 0 {
                    owned.len() - 1
                } else {
                    0
                };
                self.model_selection = if self.model_selection < last {
                    self.model_selection + 1
                } else {
                    last
                };
            },
            Key::Char(c) => {
                if c == 'm' {
                    self.overlay = Overlay::Hidden;
                } else if self.model_selection < owned.len() {
                    let tile = owned[self.model_selection];
                    if c == '+' || c == 't' {
                        self.apply_action(Action::AllocateTensor(tile));
                    } else if c == '-' || c == 'x' {
                        self.apply_action(Action::ReleaseTensor(tile));
                    } else if c == 'a' {
                        self.apply_action(Action::Archive(tile));
                    } else if c == 'r' {
                        self.apply_action(Action::Restore(tile));
                    }
                }
            },
            _ => {},
        }
    }
}

/// The human owns at most all 16 models.
proof fn lemma_owned_count(models: Map<usize, crate::state::ModelState>, n: int)
    requires
        0 <= n <= MODEL_COUNT,
    ensures
        owned_tiles_among(models, 0, n).len() <= n,
    decreases n,
{
    if n > 0 {
        lemma_owned_count(models, n - 1);
    }
}

/// What a key does, given to the interface as a whole.
pub open spec fn key_outcome(a: App, b: App, key: Key, ctrl: bool, request: Request) -> bool {
    if ctrl && key == Key::Char('c') {
        request == Request::Nothing && b == (App { should_quit: true, ..a })
    } else {
        match a.overlay {
            Overlay::Command => command_line_outcome(a, b, key, request),
            Overlay::Models => request == Request::Nothing && models_outcome(a, b, key),
            Overlay::Help => request == Request::Nothing && b == if key == Key::Esc || key == Key::Char('?') {
                App { overlay: Overlay::Hidden, ..a }
            } else {
                a
            },
            Overlay::Hidden => match a.screen {
                Screen::Home => home_outcome(a, b, key, request),
                Screen::NewGame => new_game_outcome(a, b, key, request),
                Screen::Saves => saves_outcome(a, b, key, request),
                Screen::Game => game_screen_outcome(a, b, key, request),
            },
        }
    }
}

/// What a key press does: on the save list `d` deletes the selected save on
/// its second press; any other key goes to the screen or window in front.
pub open spec fn press_outcome(a: App, b: App, key: Key, ctrl: bool, request: Request) -> bool {
    if a.screen == Screen::Saves && key == Key::Char('d') {
        if a.confirm_delete {
            delete_selected_outcome(a, b, request)
        } else {
            &&& request == Request::Nothing
            &&& b.message@ == label_text(a.language, "confirm_delete"@)
            &&& b == (App { confirm_delete: true, message: b.message, ..a })
        }
    } else {
        key_outcome(a, b, key, ctrl, request)
    }
}

impl App {
    /// Answers a key in the command line: editing the command, running it, or closing.
    pub fn handle_command_key(&mut self, key: Key) -> (request: Request)
        requires
            old(self).wf(),
        ensures
            final(self).wf(),
            command_line_outcome(*old(self), *final(self), key, request),
    {
        match key {
            Key::Esc => {
                self.overlay = Overlay::Hidden;
                Request::Nothing
            },
            Key::Backspace => {
                self.command = without_last(&self.command);
                Request::Nothing
            },
            Key::Enter => {
                let mut typed = String::new();
                std::mem::swap(&mut typed, &mut self.command);
                self.overlay = Overlay::Hidden;
                let ghost cleared = *self;
                let input = trimmed(typed.as_str());
                let request = self.execute_command(input.as_str());
                assert(cleared.command@.len() == 0);
                request
            },
            Key::Char(c) => {
                if self.command.as_str().unicode_len() < 80 {
                    push_char(&mut self.command, c);
                }
                Request::Nothing
            },
            _ => Request::Nothing,
        }
    }

    /// Answers a key: Ctrl-C quits at once; otherwise the window or screen in
    /// front takes it.
    pub fn handle_key(&mut self, key: Key, ctrl: bool) -> (request: Request)
        requires
            old(self).wf(),
        ensures
            final(self).wf(),
            key_outcome(*old(self), *final(self), key, ctrl, request),
    {
        if ctrl && key == Key::Char('c') {
            self.should_quit = true;
            return Request::Nothing;
        }
        match self.overlay {
            Overlay::Command => self.handle_command_key(key),
            Overlay::Models => {
                self.handle_models_key(key);
                Request::Nothing
            },
            Overlay::Help => {
                if key == Key::Esc || key == Key::Char('?') {
                    self.overlay = Overlay::Hidden;
                }
                Request::Nothing
            },
            Overlay::Hidden => match self.screen {
                Screen::Home => self.handle_home_key(key),
                Screen::NewGame => self.handle_new_game_key(key),
                Screen::Saves => self.handle_saves_key(key),
                Screen::Game => self.handle_game_key(key),
            },
        }
    }

    /// Answers a key press.
    pub fn press(&mut self, key: Key, ctrl: bool) -> (request: Request)
        requires
            old(self).wf(),
        ensures
            final(self).wf(),
            press_outcome(*old(self), *final(self), key, ctrl, request),
    {
        if self.screen == Screen::Saves && key == Key::Char('d') {
            if self.confirm_delete {
                self.delete_selected()
            } else {
                self.confirm_delete = true;
                self.message = String::from_str(text(self.language, "confirm_delete"));
                Request::Nothing
            }
        } else {
            self.handle_key(key, ctrl)
        }
    }
}

} // verus!
