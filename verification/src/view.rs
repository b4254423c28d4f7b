//! Text the interface shows about a game: error messages, the phase, the
//! status line, the board cells, the side panel and the centre panel.
use vstd::prelude::*;
use vstd::string::*;
use crate::catalog::{board_space, is_model_tile, model, parameters_of_tile, price_of, space_at, Language, Space};
use crate::decimal::{append_decimal, append_unsigned, decimal};
use crate::state::{Game, GameError, Phase};
use crate::text::{label_text, name_text, names_text, text};

verus! {

/// The text shown for a refused action or configuration.
pub open spec fn game_error_text(e: GameError) -> Seq<char> {
    match e {
        GameError::InvalidConfig(message) => message@,
        GameError::InvalidAction(message) => message@,
        GameError::InvalidPhase => "action is not available in the current phase"@,
        GameError::NotOwner => "player does not own this model"@,
        GameError::InsufficientFunds => "insufficient funds"@,
        GameError::UnknownModel => "unknown model"@,
    }
}

impl GameError {
    /// The text shown for this error.
    pub fn message(&self) -> (text: String)
        ensures
            text@ == game_error_text(*self),
    {
        match self {
            GameError::InvalidConfig(message) => message.clone(),
            GameError::InvalidAction(message) => message.clone(),
            GameError::InvalidPhase => String::from_str("action is not available in the current phase"),
            GameError::NotOwner => String::from_str("player does not own this model"),
            GameError::InsufficientFunds => String::from_str("insufficient funds"),
            GameError::UnknownModel => String::from_str("unknown model"),
        }
    }
}

/// The name of a phase as the status line shows it.
pub open spec fn phase_text(phase: Phase) -> Seq<char> {
    match phase {
        Phase::AwaitRoll => "AwaitRoll"@,
        Phase::OfferPurchase { tile } => "OfferPurchase { tile: "@ + decimal(tile as int) + " }"@,
        Phase::Auction => "Auction"@,
        Phase::Manage => "Manage"@,
        Phase::GameOver => "GameOver"@,
        Phase::ChooseCard => "ChooseCard"@,
    }
}

/// Appends the name of a phase.
pub fn append_phase(out: &mut String, phase: Phase)
    ensures
        final(out)@ == old(out)@ + phase_text(phase),
{
    match phase {
        Phase::AwaitRoll => out.append("AwaitRoll"),
        Phase::OfferPurchase { tile } => {
            out.append("OfferPurchase { tile: ");
            append_unsigned(out, tile as u64);
            out.append(" }");
            assert(final(out)@ =~= old(out)@ + phase_text(phase));
        },
        Phase::Auction => out.append("Auction"),
        Phase::Manage => out.append("Manage"),
        Phase::GameOver => out.append("GameOver"),
        Phase::ChooseCard => out.append("ChooseCard"),
    }
}

/// The answer to the `status` command: the round and the phase.
pub open spec fn status_text(g: Game) -> Seq<char> {
    "round "@ + decimal(g.round as int) + "/"@ + decimal(g.config.round_limit as int) + " · phase "@ + phase_text(
        g.phase,
    )
}

/// The answer to the `status` command.
pub fn status_line(game: &Game) -> (line: String)
    ensures
        line@ == status_text(*game),
{
    let mut line = String::from_str("round ");
    append_unsigned(&mut line, game.round as u64);
    line.append("/");
    append_unsigned(&mut line, game.config.round_limit as u64);
    line.append(" · phase ");
    append_phase(&mut line, game.phase);
    assert(line@ =~= status_text(*game));
    line
}

} // verus!

verus! {

/// The key hints shown in the centre of the board for each phase.
pub open spec fn controls_of(phase: Phase) -> Seq<char> {
    match phase {
        Phase::AwaitRoll => "r roll · : command · s save · m models"@,
        Phase::OfferPurchase { .. } => "p buy · a auction · : command"@,
        Phase::Auction => "b bid +10 · a pass · : bid <amount>"@,
        Phase::Manage => "m models · e end turn · s save"@,
        Phase::GameOver => "q quit · : save <name>"@,
        Phase::ChooseCard => "1 2 3 choose a card · : command"@,
    }
}

/// The key hints shown in the centre of the board.
pub fn controls_text(phase: Phase) -> (hints: &'static str)
    ensures
        hints@ == controls_of(phase),
{
    match phase {
        Phase::AwaitRoll => "r roll · : command · s save · m models",
        Phase::OfferPurchase { .. } => "p buy · a auction · : command",
        Phase::Auction => "b bid +10 · a pass · : bid <amount>",
        Phase::Manage => "m models · e end turn · s save",
        Phase::GameOver => "q quit · : save <name>",
        Phase::ChooseCard => "1 2 3 choose a card · : command",
    }
}

/// The label key of a space that holds no model.
pub open spec fn space_key(space: Space) -> Seq<char> {
    match space {
        Space::Hub => "hub_tile"@,
        Space::RandomSeed => "seed_tile"@,
        Space::ComputeBill(_) => "compute_tile"@,
        Space::Cooldown => "cooldown_tile"@,
        Space::CacheHit => "cache_tile"@,
        Space::ContextOverflow => "overflow_tile"@,
        Space::Model(_) => ""@,
    }
}

/// The title of a board cell: its position and the name of its space.
pub open spec fn cell_title_text(language: Language, index: int) -> Seq<char> {
    decimal(index) + " "@ + match space_at(index) {
        Space::Model(tile) => crate::text::model_text(tile as int),
        other => label_text(language, space_key(other)),
    }
}

/// The title of a board cell.
pub fn cell_title(language: Language, index: usize) -> (title: String)
    requires
        index < 24,
    ensures
        title@ == cell_title_text(language, index as int),
{
    let mut title = String::new();
    append_unsigned(&mut title, index as u64);
    title.append(" ");
    let space = board_space(index);
    match space {
        Space::Model(tile) => match model(tile) {
            Some(definition) => title.append(definition.short_name),
            None => title.append("?"),
        },
        Space::Hub => title.append(text(language, "hub_tile")),
        Space::RandomSeed => title.append(text(language, "seed_tile")),
        Space::ComputeBill(_) => title.append(text(language, "compute_tile")),
        Space::Cooldown => title.append(text(language, "cooldown_tile")),
        Space::CacheHit => title.append(text(language, "cache_tile")),
        Space::ContextOverflow => title.append(text(language, "overflow_tile")),
    }
    proof { reveal_strlit("?"); }
    assert(title@ =~= cell_title_text(language, index as int));
    title
}

/// Who holds a model, as its cell shows it: the owner's seat number, or the
/// price while the bank holds it.
pub open spec fn holder_text(g: Game, tile: int) -> Seq<char> {
    match g.models@[tile as usize].owner {
        Some(id) => "P"@ + decimal(id + 1),
        None => "¢"@ + decimal(price_of(parameters_of_tile(tile))),
    }
}

/// The upgrade mark of a model: `M` when archived, `T` and the tensor count
/// when it has tensors.
pub open spec fn upgrade_text(g: Game, tile: int) -> Seq<char> {
    let state = g.models@[tile as usize];
    if state.archived {
        "M"@
    } else if state.tensors > 0 {
        "T"@ + decimal(state.tensors as int)
    } else {
        Seq::empty()
    }
}

/// The ownership part of a model's cell: holder and upgrade mark.
pub open spec fn holding_text(g: Game, tile: int) -> Seq<char> {
    holder_text(g, tile) + " "@ + upgrade_text(g, tile)
}

/// The ownership part of a model's cell.
pub fn holding_line(game: &Game, tile: usize) -> (line: String)
    requires
        game.wf(),
        crate::catalog::is_model_tile(tile as int),
    ensures
        line@ == holding_text(*game, tile as int),
{
    assert(game.models@.contains_key(tile));
    let state = game.read_model(tile);
    let mut line = String::new();
    match state.owner {
        Some(id) => {
            line.append("P");
            append_unsigned(&mut line, id as u64 + 1);
        },
        None => {
            line.append("¢");
            let price = model(tile).unwrap().price();
            append_decimal(&mut line, price as i64);
        },
    }
    line.append(" ");
    if state.archived {
        line.append("M");
    } else if state.tensors > 0 {
        line.append("T");
        append_unsigned(&mut line, state.tensors as u64);
    }
    assert(line@ =~= holding_text(*game, tile as int));
    line
}

/// Seat numbers of the players still in the game on a position, among the first `k` seats.
pub open spec fn tokens_among(g: Game, index: int, k: int) -> Seq<char>
    decreases k,
{
    if k <= 0 {
        Seq::empty()
    } else {
        let before = tokens_among(g, index, k - 1);
        let p = g.players@[k - 1];
        if !p.bankrupt && p.position == index {
            if before.len() == 0 {
                decimal(p.id + 1)
            } else {
                before + " "@ + decimal(p.id + 1)
            }
        } else {
            before
        }
    }
}

/// Seat numbers of the players still in the game standing on a position.
pub fn cell_tokens(game: &Game, index: usize) -> (tokens: String)
    requires
        game.players@.len() <= 4,
        forall|i: int| 0 <= i < game.players@.len() ==> (#[trigger] game.players@[i]).id < 4,
    ensures
        tokens@ == tokens_among(*game, index as int, game.players@.len() as int),
{
    let mut tokens = String::new();
    let mut i: usize = 0;
    while i < game.players.len()
        invariant
            game.players@.len() <= 4,
            forall|j: int| 0 <= j < game.players@.len() ==> (#[trigger] game.players@[j]).id < 4,
            i <= game.players@.len(),
            tokens@ == tokens_among(*game, index as int, i as int),
        decreases game.players@.len() - i,
    {
        let p = &game.players[i];
        if !p.bankrupt && p.position == index {
            if tokens.as_str().unicode_len() > 0 {
                tokens.append(" ");
            }
            append_unsigned(&mut tokens, p.id as u64 + 1);
        }
        i = i + 1;
        assert(tokens@ =~= tokens_among(*game, index as int, i as int));
    }
    tokens
}

} // verus!

verus! {

/// The auction box of the centre panel: the model, the high bid and who
/// holds it, the next minimum bid and whose turn it is; empty when no
/// auction is running.
pub open spec fn auction_panel_text(g: Game, language: Language) -> Seq<char> {
    match g.auction {
        Some(a) => if g.phase == Phase::Auction {
            let name = crate::text::model_text(a.tile as int);
            let bidder = if a.bidder_index < a.active@.len() {
                name_text(g, a.active@[a.bidder_index as int] as int)
            } else {
                "?"@
            };
            let minimum = if a.high_bid == 0 {
                10
            } else {
                a.high_bid + 10
            };
            let leader = match a.high_bidder {
                Some(id) => if id < g.players@.len() {
                    match language {
                        Language::ZhCn => "（"@ + g.players@[id as int].name@ + "）"@,
                        Language::En => " ("@ + g.players@[id as int].name@ + ")"@,
                    }
                } else {
                    Seq::empty()
                },
                None => Seq::empty(),
            };
            match language {
                Language::ZhCn => "\n\n拍卖："@ + name + "\n当前最高价：¢"@ + decimal(a.high_bid as int) + leader
                    + " · 下一最低价：¢"@ + decimal(minimum) + "\n轮到："@ + bidder,
                Language::En => "\n\nAuction: "@ + name + "\nHigh bid: ¢"@ + decimal(a.high_bid as int) + leader
                    + " · Next minimum: ¢"@ + decimal(minimum) + "\nTurn: "@ + bidder,
            }
        } else {
            Seq::empty()
        },
        None => Seq::empty(),
    }
}

/// The auction box of the centre panel.
pub fn auction_panel(game: &Game, language: Language) -> (panel: String)
    ensures
        panel@ == auction_panel_text(*game, language),
{
    let mut panel = String::new();
    let a = match &game.auction {
        Some(a) => a,
        None => return panel,
    };
    if game.phase != Phase::Auction {
        return panel;
    }
    let zh = match language {
        Language::ZhCn => true,
        Language::En => false,
    };
    if zh {
        panel.append("\n\n拍卖：");
    } else {
        panel.append("\n\nAuction: ");
    }
    match model(a.tile) {
        Some(definition) => panel.append(definition.short_name),
        None => panel.append("?"),
    }
    if zh {
        panel.append("\n当前最高价：¢");
    } else {
        panel.append("\nHigh bid: ¢");
    }
    append_decimal(&mut panel, a.high_bid as i64);
    match a.high_bidder {
        Some(id) => {
            if id < game.players.len() {
                if zh {
                    panel.append("（");
                    panel.append(game.players[id].name.as_str());
                    panel.append("）");
                } else {
                    panel.append(" (");
                    panel.append(game.players[id].name.as_str());
                    panel.append(")");
                }
            }
        },
        None => {},
    }
    if zh {
        panel.append(" · 下一最低价：¢");
    } else {
        panel.append(" · Next minimum: ¢");
    }
    let minimum: i64 = if a.high_bid == 0 {
        10
    } else {
        a.high_bid as i64 + 10
    };
    append_decimal(&mut panel, minimum);
    if zh {
        panel.append("\n轮到：");
    } else {
        panel.append("\nTurn: ");
    }
    if a.bidder_index < a.active.len() {
        let id = a.active[a.bidder_index];
        if id < game.players.len() {
            panel.append(game.players[id].name.as_str());
        } else {
            panel.append("?");
        }
    } else {
        panel.append("?");
    }
    proof { reveal_strlit("?"); }
    assert(panel@ =~= auction_panel_text(*game, language));
    panel
}

/// The winners line of the centre panel once the game is over.
pub open spec fn winner_line_text(g: Game, language: Language) -> Seq<char> {
    if g.phase == Phase::GameOver {
        "\n"@ + label_text(language, "winner"@) + ": "@ + names_text(g, g.winners@)
    } else {
        Seq::empty()
    }
}

/// The winners line of the centre panel.
pub fn winner_line(game: &Game, language: Language) -> (line: String)
    ensures
        line@ == winner_line_text(*game, language),
{
    let mut line = String::new();
    if game.phase != Phase::GameOver {
        return line;
    }
    line.append("\n");
    line.append(text(language, "winner"));
    line.append(": ");
    let ghost head = line@;
    let mut i: usize = 0;
    while i < game.winners.len()
        invariant
            i <= game.winners@.len(),
            line@ == head + names_text(*game, game.winners@.subrange(0, i as int)),
        decreases game.winners@.len() - i,
    {
        let ghost before = game.winners@.subrange(0, i as int);
        let ghost after = game.winners@.subrange(0, i as int + 1);
        assert(after.drop_last() =~= before);
        if i > 0 {
            line.append(", ");
        }
        let id = game.winners[i];
        if id < game.players.len() {
            line.append(game.players[id].name.as_str());
        } else {
            line.append("?");
        }
        proof {
            reveal_strlit("?");
            if i == 0 {
                assert(before =~= Seq::<usize>::empty());
            }
            assert(line@ =~= head + names_text(*game, after));
        }
        i = i + 1;
    }
    assert(game.winners@.subrange(0, game.winners@.len() as int) =~= game.winners@);
    line
}

/// The text of the centre panel: title, key hints, auction and winners.
pub open spec fn centre_text(g: Game, language: Language) -> Seq<char> {
    label_text(language, "title"@) + "\n\n"@ + controls_of(g.phase) + auction_panel_text(g, language)
        + winner_line_text(g, language)
}

/// The text of the centre panel.
pub fn centre_panel(game: &Game, language: Language) -> (panel: String)
    ensures
        panel@ == centre_text(*game, language),
{
    let mut panel = String::from_str(text(language, "title"));
    panel.append("\n\n");
    panel.append(controls_text(game.phase));
    let auction = auction_panel(game, language);
    panel.append(auction.as_str());
    let winners = winner_line(game, language);
    panel.append(winners.as_str());
    assert(panel@ =~= centre_text(*game, language));
    panel
}

/// The title of the side panel: the round and the phase.
pub open spec fn side_title_text(g: Game, language: Language) -> Seq<char> {
    label_text(language, "round"@) + " "@ + decimal(g.round as int) + "/"@ + decimal(g.config.round_limit as int)
        + " · "@ + phase_text(g.phase)
}

/// The title of the side panel.
pub fn side_title(game: &Game, language: Language) -> (title: String)
    ensures
        title@ == side_title_text(*game, language),
{
    let mut title = String::from_str(text(language, "round"));
    title.append(" ");
    append_unsigned(&mut title, game.round as u64);
    title.append("/");
    append_unsigned(&mut title, game.config.round_limit as u64);
    title.append(" · ");
    append_phase(&mut title, game.phase);
    assert(title@ =~= side_title_text(*game, language));
    title
}

/// A player's line in the side panel: a pointer on the player to move, the
/// seat number, name, credits, net worth, and a mark when bankrupt or cooling down.
pub open spec fn player_line_text(g: Game, language: Language, i: int) -> Seq<char> {
    let p = g.players@[i];
    (if p.id == g.current_player {
        "▶"@
    } else {
        " "@
    }) + decimal(p.id + 1) + " "@ + p.name@ + "  ¢"@ + decimal(p.credits as int) + "  "@ + label_text(
        language,
        "worth"@,
    ) + ":"@ + decimal(g.worth_of(i)) + if p.bankrupt {
        "✕"@
    } else if p.cooldown_turns > 0 {
        "⚿"@
    } else {
        Seq::empty()
    }
}

/// A player's line in the side panel.
pub fn player_line(game: &Game, language: Language, i: usize) -> (line: String)
    requires
        game.wf(),
        game.credits_at_most(i32::MAX - 11_200),
        i < game.players@.len(),
    ensures
        line@ == player_line_text(*game, language, i as int),
{
    let p = &game.players[i];
    let mut line = String::new();
    if p.id == game.current_player {
        line.append("▶");
    } else {
        line.append(" ");
    }
    append_unsigned(&mut line, p.id as u64 + 1);
    line.append(" ");
    line.append(p.name.as_str());
    line.append("  ¢");
    append_decimal(&mut line, p.credits as i64);
    line.append("  ");
    line.append(text(language, "worth"));
    line.append(":");
    let worth = game.net_worth(i);
    append_decimal(&mut line, worth as i64);
    if p.bankrupt {
        line.append("✕");
    } else if p.cooldown_turns > 0 {
        line.append("⚿");
    }
    assert(line@ =~= player_line_text(*game, language, i as int));
    line
}

/// A line of the save list: name, state, time and id.
pub open spec fn save_line_text(save: crate::saves::SaveSummary, language: Language) -> Seq<char> {
    let status = match save.error {
        Some(_) => label_text(language, "corrupt"@),
        None => label_text(language, "round"@) + " "@ + decimal(save.round as int),
    };
    save.name@ + "  ["@ + status + "]  "@ + crate::decimal::unsigned_decimal(save.updated_at_ms as nat) + "  id:"@
        + save.id@
}

/// A line of the save list.
pub fn save_line(save: &crate::saves::SaveSummary, language: Language) -> (line: String)
    ensures
        line@ == save_line_text(*save, language),
{
    let mut line = String::from_str(save.name.as_str());
    line.append("  [");
    match &save.error {
        Some(_) => line.append(text(language, "corrupt")),
        None => {
            line.append(text(language, "round"));
            line.append(" ");
            append_unsigned(&mut line, save.round as u64);
        },
    }
    line.append("]  ");
    crate::decimal::append_wide(&mut line, save.updated_at_ms);
    line.append("  id:");
    line.append(save.id.as_str());
    assert(line@ =~= save_line_text(*save, language));
    line
}

} // verus!
