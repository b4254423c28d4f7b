//! Interface text in Chinese and English: labels, card names and event log lines.
use vstd::prelude::*;
use vstd::string::*;
use crate::catalog::{is_model_tile, model, short_name_of, Card, Language};
use crate::decimal::{append_decimal, append_signed_decimal, append_unsigned, decimal, signed_decimal};
use crate::state::{Game, GameLog};
use crate::strings::same_text;

verus! {

/// Chinese text of an interface label (`?` for an unknown key).
pub open spec fn zh_text(key: Seq<char>) -> Seq<char> {
    if key == "title"@ {
        "终端大富翁"@
    } else if key == "new_game"@ {
        "新游戏"@
    } else if key == "load_game"@ {
        "存档管理"@
    } else if key == "language"@ {
        "切换语言"@
    } else if key == "quit"@ {
        "退出"@
    } else if key == "help"@ {
        "帮助"@
    } else if key == "player_name"@ {
        "玩家名称"@
    } else if key == "bots"@ {
        "电脑玩家"@
    } else if key == "round_limit"@ {
        "回合上限"@
    } else if key == "start"@ {
        "开始游戏"@
    } else if key == "back"@ {
        "返回"@
    } else if key == "round"@ {
        "回合"@
    } else if key == "cash"@ {
        "现金"@
    } else if key == "worth"@ {
        "净资产"@
    } else if key == "phase"@ {
        "阶段"@
    } else if key == "event_log"@ {
        "事件日志"@
    } else if key == "command"@ {
        "命令"@
    } else if key == "saves"@ {
        "存档"@
    } else if key == "no_saves"@ {
        "暂无存档"@
    } else if key == "corrupt"@ {
        "损坏"@
    } else if key == "winner"@ {
        "获胜者"@
    } else if key == "resize"@ {
        "终端至少需要 80×24，请调整窗口大小"@
    } else if key == "confirm_quit"@ {
        "再次按 q 确认退出"@
    } else if key == "confirm_delete"@ {
        "再次按 d 确认删除"@
    } else if key == "assets"@ {
        "资产管理"@
    } else if key == "controls"@ {
        "热键"@
    } else if key == "start_tile"@ {
        "起点"@
    } else if key == "event_tile"@ {
        "事件"@
    } else if key == "tax_tile"@ {
        "税费"@
    } else if key == "jail_tile"@ {
        "监狱/探访"@
    } else if key == "free_tile"@ {
        "免费停车"@
    } else if key == "go_jail_tile"@ {
        "前往监狱"@
    } else {
        "?"@
    }
}

/// English text of an interface label (`?` for an unknown key).
pub open spec fn en_text(key: Seq<char>) -> Seq<char> {
    if key == "title"@ {
        "Terminal Tycoon"@
    } else if key == "new_game"@ {
        "New game"@
    } else if key == "load_game"@ {
        "Save manager"@
    } else if key == "language"@ {
        "Switch language"@
    } else if key == "quit"@ {
        "Quit"@
    } else if key == "help"@ {
        "Help"@
    } else if key == "player_name"@ {
        "Player name"@
    } else if key == "bots"@ {
        "Bots"@
    } else if key == "round_limit"@ {
        "Round limit"@
    } else if key == "start"@ {
        "Start game"@
    } else if key == "back"@ {
        "Back"@
    } else if key == "round"@ {
        "Round"@
    } else if key == "cash"@ {
        "Cash"@
    } else if key == "worth"@ {
        "Net worth"@
    } else if key == "phase"@ {
        "Phase"@
    } else if key == "event_log"@ {
        "Event log"@
    } else if key == "command"@ {
        "Command"@
    } else if key == "saves"@ {
        "Saves"@
    } else if key == "no_saves"@ {
        "No saves"@
    } else if key == "corrupt"@ {
        "Corrupt"@
    } else if key == "winner"@ {
        "Winner"@
    } else if key == "resize"@ {
        "Terminal must be at least 80×24; please resize"@
    } else if key == "confirm_quit"@ {
        "Press q again to quit"@
    } else if key == "confirm_delete"@ {
        "Press d again to delete"@
    } else if key == "assets"@ {
        "Asset manager"@
    } else if key == "controls"@ {
        "Controls"@
    } else if key == "start_tile"@ {
        "Start"@
    } else if key == "event_tile"@ {
        "Event"@
    } else if key == "tax_tile"@ {
        "Tax"@
    } else if key == "jail_tile"@ {
        "Jail / Visiting"@
    } else if key == "free_tile"@ {
        "Free Parking"@
    } else if key == "go_jail_tile"@ {
        "Go to Jail"@
    } else {
        "?"@
    }
}

/// Text of an interface label in a language.
pub open spec fn label_text(language: Language, key: Seq<char>) -> Seq<char> {
    match language {
        Language::ZhCn => zh_text(key),
        Language::En => en_text(key),
    }
}

/// Name of a card in a language.
pub open spec fn card_text(language: Language, card: Card) -> Seq<char> {
    match language {
        Language::ZhCn => match card {
            Card::Gain50 => "社区奖励 +50"@,
            Card::Gain100 => "银行分红 +100"@,
            Card::Gain150 => "幸运抽奖 +150"@,
            Card::Pay50 => "医疗费用 -50"@,
            Card::Pay100 => "城市维护费 -100"@,
            Card::Collect25Each => "每人支付你 25"@,
            Card::Pay25Each => "向每人支付 25"@,
            Card::AdvanceHub => "前往起点"@,
            Card::AdvanceFlagship => "前往下一车站"@,
            Card::BackThree => "后退三格"@,
            Card::EnterCooldown => "直接入狱"@,
            Card::BypassToken => "免狱卡"@,
        },
        Language::En => match card {
            Card::Gain50 => "Community award +50"@,
            Card::Gain100 => "Bank dividend +100"@,
            Card::Gain150 => "Lucky draw +150"@,
            Card::Pay50 => "Medical fee -50"@,
            Card::Pay100 => "City maintenance -100"@,
            Card::Collect25Each => "Collect 25 from everyone"@,
            Card::Pay25Each => "Pay everyone 25"@,
            Card::AdvanceHub => "Advance to Start"@,
            Card::AdvanceFlagship => "Advance to next station"@,
            Card::BackThree => "Move back three"@,
            Card::EnterCooldown => "Go directly to jail"@,
            Card::BypassToken => "Get out of jail"@,
        },
    }
}

/// A player's name as the log shows it; `?` for a seat that does not exist.
pub open spec fn name_text(g: Game, id: int) -> Seq<char> {
    if 0 <= id < g.players@.len() {
        g.players@[id].name@
    } else {
        "?"@
    }
}

/// A model's name as the log shows it; `?` for a tile without a model.
pub open spec fn model_text(tile: int) -> Seq<char> {
    if is_model_tile(tile) {
        short_name_of(tile)
    } else {
        "?"@
    }
}

/// Players' names separated by commas.
pub open spec fn names_text(g: Game, ids: Seq<usize>) -> Seq<char>
    decreases ids.len(),
{
    if ids.len() == 0 {
        Seq::empty()
    } else if ids.len() == 1 {
        name_text(g, ids[0] as int)
    } else {
        names_text(g, ids.drop_last()) + ", "@ + name_text(g, ids.last() as int)
    }
}

/// The line of the event log that shows `log` in a language.
pub open spec fn log_text(g: Game, language: Language, log: GameLog) -> Seq<char> {
    let zh = language == Language::ZhCn;
    match log {
        GameLog::Rolled { player, first, second } => name_text(g, player as int) + (if zh {
            " 掷出 "@
        } else {
            " rolled "@
        }) + decimal(first as int) + "+"@ + decimal(second as int),
        GameLog::Moved { player, position } => if zh {
            name_text(g, player as int) + " 移动到第 "@ + decimal(position as int) + " 格"@
        } else {
            name_text(g, player as int) + " moved to tile "@ + decimal(position as int)
        },
        GameLog::Bought { player, tile, price } => if zh {
            name_text(g, player as int) + " 以 "@ + decimal(price as int) + " 买下 "@ + model_text(tile as int)
        } else {
            name_text(g, player as int) + " bought "@ + model_text(tile as int) + " for "@ + decimal(price as int)
        },
        GameLog::UsageFee { from, to, amount } => if zh {
            name_text(g, from as int) + " 向 "@ + name_text(g, to as int) + " 支付租金 "@ + decimal(amount as int)
        } else {
            name_text(g, from as int) + " paid "@ + decimal(amount as int) + " rent to "@ + name_text(g, to as int)
        },
        GameLog::Credits { player, amount } => name_text(g, player as int) + " "@ + signed_decimal(amount as int),
        GameLog::ComputeBill { player, amount } => name_text(g, player as int) + " tax -"@ + decimal(amount as int),
        GameLog::Drew { player, card } => name_text(g, player as int) + ": "@ + card_text(language, card),
        GameLog::CooldownStarted { player } => name_text(g, player as int) + if zh {
            " 入狱"@
        } else {
            " went to jail"@
        },
        GameLog::TensorAllocated { player, tile, tensors } => name_text(g, player as int) + " "@ + model_text(
            tile as int,
        ) + " 🏠"@ + decimal(tensors as int),
        GameLog::ReleasedTensor { player, tile, tensors } => name_text(g, player as int) + " "@ + model_text(
            tile as int,
        ) + " 🏠"@ + decimal(tensors as int),
        GameLog::Archived { player, tile } => name_text(g, player as int) + " mortgage "@ + model_text(tile as int),
        GameLog::Restored { player, tile } => name_text(g, player as int) + " unmortgage "@ + model_text(tile as int),
        GameLog::Bankrupt { player, creditor } => name_text(g, player as int) + if zh {
            " 破产"@
        } else {
            " is bankrupt"@
        },
        GameLog::Won { players } => (if zh {
            "获胜："@
        } else {
            "Winner: "@
        }) + names_text(g, players@),
    }
}

fn label_pair(key: &str) -> (pair: (&'static str, &'static str))
    ensures
        pair.0@ == zh_text(key@),
        pair.1@ == en_text(key@),
{
    if same_text(key, "title") {
        ("终端大富翁", "Terminal Tycoon")
    } else if same_text(key, "new_game") {
        ("新游戏", "New game")
    } else if same_text(key, "load_game") {
        ("存档管理", "Save manager")
    } else if same_text(key, "language") {
        ("切换语言", "Switch language")
    } else if same_text(key, "quit") {
        ("退出", "Quit")
    } else if same_text(key, "help") {
        ("帮助", "Help")
    } else if same_text(key, "player_name") {
        ("玩家名称", "Player name")
    } else if same_text(key, "bots") {
        ("电脑玩家", "Bots")
    } else if same_text(key, "round_limit") {
        ("回合上限", "Round limit")
    } else if same_text(key, "start") {
        ("开始游戏", "Start game")
    } else if same_text(key, "back") {
        ("返回", "Back")
    } else if same_text(key, "round") {
        ("回合", "Round")
    } else if same_text(key, "cash") {
        ("现金", "Cash")
    } else if same_text(key, "worth") {
        ("净资产", "Net worth")
    } else if same_text(key, "phase") {
        ("阶段", "Phase")
    } else if same_text(key, "event_log") {
        ("事件日志", "Event log")
    } else if same_text(key, "command") {
        ("命令", "Command")
    } else if same_text(key, "saves") {
        ("存档", "Saves")
    } else if same_text(key, "no_saves") {
        ("暂无存档", "No saves")
    } else if same_text(key, "corrupt") {
        ("损坏", "Corrupt")
    } else if same_text(key, "winner") {
        ("获胜者", "Winner")
    } else if same_text(key, "resize") {
        ("终端至少需要 80×24，请调整窗口大小", "Terminal must be at least 80×24; please resize")
    } else if same_text(key, "confirm_quit") {
        ("再次按 q 确认退出", "Press q again to quit")
    } else if same_text(key, "confirm_delete") {
        ("再次按 d 确认删除", "Press d again to delete")
    } else if same_text(key, "assets") {
        ("资产管理", "Asset manager")
    } else if same_text(key, "controls") {
        ("热键", "Controls")
    } else if same_text(key, "start_tile") {
        ("起点", "Start")
    } else if same_text(key, "event_tile") {
        ("事件", "Event")
    } else if same_text(key, "tax_tile") {
        ("税费", "Tax")
    } else if same_text(key, "jail_tile") {
        ("监狱/探访", "Jail / Visiting")
    } else if same_text(key, "free_tile") {
        ("免费停车", "Free Parking")
    } else if same_text(key, "go_jail_tile") {
        ("前往监狱", "Go to Jail")
    } else {
        ("?", "?")
    }
}

/// Text of an interface label in a language; `?` for an unknown key.
pub fn text(language: Language, key: &str) -> (label: &'static str)
    ensures
        label@ == label_text(language, key@),
{
    let (zh, en) = label_pair(key);
    match language {
        Language::ZhCn => zh,
        Language::En => en,
    }
}

/// Name of a card in a language.
pub fn card_name(language: Language, card: Card) -> (name: &'static str)
    ensures
        name@ == card_text(language, card),
{
    let (zh, en) = match card {
        Card::Gain50 => ("社区奖励 +50", "Community award +50"),
        Card::Gain100 => ("银行分红 +100", "Bank dividend +100"),
        Card::Gain150 => ("幸运抽奖 +150", "Lucky draw +150"),
        Card::Pay50 => ("医疗费用 -50", "Medical fee -50"),
        Card::Pay100 => ("城市维护费 -100", "City maintenance -100"),
        Card::Collect25Each => ("每人支付你 25", "Collect 25 from everyone"),
        Card::Pay25Each => ("向每人支付 25", "Pay everyone 25"),
        Card::AdvanceHub => ("前往起点", "Advance to Start"),
        Card::AdvanceFlagship => ("前往下一车站", "Advance to next station"),
        Card::BackThree => ("后退三格", "Move back three"),
        Card::EnterCooldown => ("直接入狱", "Go directly to jail"),
        Card::BypassToken => ("免狱卡", "Get out of jail"),
    };
    match language {
        Language::ZhCn => zh,
        Language::En => en,
    }
}

/// Appends a player's name, or `?` for a seat that does not exist.
fn append_name(out: &mut String, game: &Game, id: usize)
    ensures
        final(out)@ == old(out)@ + name_text(*game, id as int),
{
    if id < game.players.len() {
        out.append(game.players[id].name.as_str());
    } else {
        out.append("?");
    }
}

/// Appends a model's name, or `?` for a tile without a model.
fn append_model(out: &mut String, tile: usize)
    ensures
        final(out)@ == old(out)@ + model_text(tile as int),
{
    match model(tile) {
        Some(definition) => out.append(definition.short_name),
        None => out.append("?"),
    }
}

/// The line of the event log that shows `log` in a language.
pub fn log_line(game: &Game, language: Language, log: &GameLog) -> (line: String)
    ensures
        line@ == log_text(*game, language, *log),
{
    let zh = match language {
        Language::ZhCn => true,
        Language::En => false,
    };
    let mut out = String::new();
    match log {
        GameLog::Rolled { player, first, second } => {
            append_name(&mut out, game, *player);
            if zh {
                out.append(" 掷出 ");
            } else {
                out.append(" rolled ");
            }
            append_unsigned(&mut out, *first as u64);
            out.append("+");
            append_unsigned(&mut out, *second as u64);
        },
        GameLog::Moved { player, position } => {
            append_name(&mut out, game, *player);
            if zh {
                out.append(" 移动到第 ");
                append_unsigned(&mut out, *position as u64);
                out.append(" 格");
            } else {
                out.append(" moved to tile ");
                append_unsigned(&mut out, *position as u64);
            }
        },
        GameLog::Bought { player, tile, price } => {
            append_name(&mut out, game, *player);
            if zh {
                out.append(" 以 ");
                append_decimal(&mut out, *price as i64);
                out.append(" 买下 ");
                append_model(&mut out, *tile);
            } else {
                out.append(" bought ");
                append_model(&mut out, *tile);
                out.append(" for ");
                append_decimal(&mut out, *price as i64);
            }
        },
        GameLog::UsageFee { from, to, amount } => {
            append_name(&mut out, game, *from);
            if zh {
                out.append(" 向 ");
                append_name(&mut out, game, *to);
                out.append(" 支付租金 ");
                append_decimal(&mut out, *amount as i64);
            } else {
                out.append(" paid ");
                append_decimal(&mut out, *amount as i64);
                out.append(" rent to ");
                append_name(&mut out, game, *to);
            }
        },
        GameLog::Credits { player, amount } => {
            append_name(&mut out, game, *player);
            out.append(" ");
            append_signed_decimal(&mut out, *amount as i64);
        },
        GameLog::ComputeBill { player, amount } => {
            append_name(&mut out, game, *player);
            out.append(" tax -");
            append_decimal(&mut out, *amount as i64);
        },
        GameLog::Drew { player, card } => {
            append_name(&mut out, game, *player);
            out.append(": ");
            out.append(card_name(language, *card));
        },
        GameLog::CooldownStarted { player } => {
            append_name(&mut out, game, *player);
            if zh {
                out.append(" 入狱");
            } else {
                out.append(" went to jail");
            }
        },
        GameLog::TensorAllocated { player, tile, tensors } => {
            append_name(&mut out, game, *player);
            out.append(" ");
            append_model(&mut out, *tile);
            out.append(" 🏠");
            append_unsigned(&mut out, *tensors as u64);
        },
        GameLog::ReleasedTensor { player, tile, tensors } => {
            append_name(&mut out, game, *player);
            out.append(" ");
            append_model(&mut out, *tile);
            out.append(" 🏠");
            append_unsigned(&mut out, *tensors as u64);
        },
        GameLog::Archived { player, tile } => {
            append_name(&mut out, game, *player);
            out.append(" mortgage ");
            append_model(&mut out, *tile);
        },
        GameLog::Restored { player, tile } => {
            append_name(&mut out, game, *player);
            out.append(" unmortgage ");
            append_model(&mut out, *tile);
        },
        GameLog::Bankrupt { player, creditor } => {
            append_name(&mut out, game, *player);
            if zh {
                out.append(" 破产");
            } else {
                out.append(" is bankrupt");
            }
        },
        GameLog::Won { players } => {
            if zh {
                out.append("获胜：");
            } else {
                out.append("Winner: ");
            }
            let ghost head = out@;
            let mut i: usize = 0;
            while i < players.len()
                invariant
                    i <= players@.len(),
                    out@ == head + names_text(*game, players@.subrange(0, i as int)),
                decreases players@.len() - i,
            {
                let ghost before = players@.subrange(0, i as int);
                let ghost after = players@.subrange(0, i as int + 1);
                assert(after.drop_last() =~= before);
                if i > 0 {
                    out.append(", ");
                }
                append_name(&mut out, game, players[i]);
                proof {
                    if i == 0 {
                        assert(before =~= Seq::<usize>::empty());
                    }
                    assert(out@ =~= head + names_text(*game, after));
                }
                i = i + 1;
            }
            assert(players@.subrange(0, players@.len() as int) =~= players@);
        },
    }
    assert(out@ =~= log_text(*game, language, *log));
    out
}

} // verus!
