//! Saved games: the save file's contents, the rules for save names and ids,
//! the summaries shown in the save manager, and the upgrade of saves written
//! for the first board layout.
use vstd::prelude::*;
use vstd::string::*;
use crate::catalog::Language;
use crate::decimal::{append_unsigned, unsigned_decimal};
use std::collections::BTreeMap;
use crate::catalog::{is_model_tile, model_at, tile_of_index, MODEL_COUNT};
use crate::state::{unowned_model, AuctionState, Game, GameLog, ModelState, Phase, Player};
use crate::sums::lemma_roster_tiles;
use crate::strings::{trim, trimmed, trimmed_len};

verus! {

/// Version of the save format this library writes.
pub const SAVE_VERSION: u32 = 2;

/// A saved game as it is stored.
#[derive(Debug, Clone)]
pub struct SaveEnvelope {
    pub schema_version: u32,
    pub id: String,
    pub name: String,
    pub updated_at_ms: u128,
    pub game: Game,
}

/// Settings kept between runs.
#[derive(Debug, Clone, Copy, PartialEq, Eq, Structural)]
pub struct Preferences {
    pub language: Language,
}

impl Default for Preferences {
    fn default() -> (preferences: Self)
        ensures
            preferences.language == Language::ZhCn,
    {
        Preferences { language: Language::ZhCn }
    }
}

/// One line of the save manager.
#[derive(Debug, Clone)]
pub struct SaveSummary {
    pub id: String,
    pub name: String,
    pub updated_at_ms: u128,
    pub round: u16,
    pub error: Option<String>,
}

/// Why a save could not be written, read or found.
#[derive(Debug, Clone, PartialEq, Eq)]
pub enum SaveError {
    Io(String),
    Json(String),
    InvalidName,
    UnsupportedVersion(u32),
    NotFound,
}

/// Whether a character may appear in a save id: a hexadecimal digit or `-`.
pub open spec fn id_char(c: char) -> bool {
    ||| ('0' <= c && c <= '9')
    ||| ('a' <= c && c <= 'f')
    ||| ('A' <= c && c <= 'F')
    ||| c == '-'
}

/// Whether text is a well-formed save id.
pub open spec fn valid_id(id: Seq<char>) -> bool {
    id.len() > 0 && forall|i: int| 0 <= i < id.len() ==> id_char(#[trigger] id[i])
}

/// Whether a save name has 1 to 32 characters once trimmed.
pub open spec fn valid_name(name: Seq<char>) -> bool {
    1 <= trim(name).len() <= 32
}

/// The text a save error shows.
pub open spec fn error_text(error: SaveError) -> Seq<char> {
    match error {
        SaveError::Io(message) => message@,
        SaveError::Json(message) => message@,
        SaveError::InvalidName => "save name must contain 1 to 32 characters"@,
        SaveError::UnsupportedVersion(version) => "unsupported save version "@ + unsigned_decimal(version as nat),
        SaveError::NotFound => "save not found"@,
    }
}

impl SaveError {
    /// The text shown for this error.
    pub fn message(&self) -> (text: String)
        ensures
            text@ == error_text(*self),
    {
        match self {
            SaveError::Io(message) => message.clone(),
            SaveError::Json(message) => message.clone(),
            SaveError::InvalidName => String::from_str("save name must contain 1 to 32 characters"),
            SaveError::UnsupportedVersion(version) => {
                let mut text = String::from_str("unsupported save version ");
                append_unsigned(&mut text, *version as u64);
                text
            },
            SaveError::NotFound => String::from_str("save not found"),
        }
    }
}

/// Checks a save name: 1 to 32 characters once trimmed.
pub fn validate_name(name: &str) -> (result: Result<(), SaveError>)
    ensures
        result == if valid_name(name@) {
            Ok::<(), SaveError>(())
        } else {
            Err(SaveError::InvalidName)
        },
{
    let count = trimmed_len(name);
    if !(1 <= count && count <= 32) {
        Err(SaveError::InvalidName)
    } else {
        Ok(())
    }
}

/// Whether a character may appear in a save id.
fn is_id_char(c: char) -> (r: bool)
    ensures
        r == id_char(c),
{
    ('0' <= c && c <= '9') || ('a' <= c && c <= 'f') || ('A' <= c && c <= 'F') || c == '-'
}

/// Checks a save id: not empty, and only hexadecimal digits and `-`, so that
/// it cannot name a path outside the save folder. A bad id is reported as not found.
pub fn validate_id(id: &str) -> (result: Result<(), SaveError>)
    ensures
        result == if valid_id(id@) {
            Ok::<(), SaveError>(())
        } else {
            Err(SaveError::NotFound)
        },
{
    let n = id.unicode_len();
    if n == 0 {
        return Err(SaveError::NotFound);
    }
    let mut i: usize = 0;
    while i < n
        invariant
            n == id@.len(),
            i <= n,
            forall|k: int| 0 <= k < i ==> id_char(#[trigger] id@[k]),
        decreases n - i,
    {
        if !is_id_char(id.get_char(i)) {
            return Err(SaveError::NotFound);
        }
        i = i + 1;
    }
    Ok(())
}

/// The trimmed name under which a save is stored.
pub fn stored_name(name: &str) -> (stored: String)
    ensures
        stored@ == trim(name@),
{
    trimmed(name)
}

/// Lowercase hexadecimal digits of a natural number, without leading zeros.
pub open spec fn unsigned_hex(n: nat) -> Seq<char>
    decreases n,
{
    if n < 16 {
        seq![hex_digit(n as int)]
    } else {
        unsigned_hex(n / 16).push(hex_digit((n % 16) as int))
    }
}

/// The lowercase character of a hexadecimal digit.
pub open spec fn hex_digit(d: int) -> char {
    if d == 0 { '0' }
    else if d == 1 { '1' }
    else if d == 2 { '2' }
    else if d == 3 { '3' }
    else if d == 4 { '4' }
    else if d == 5 { '5' }
    else if d == 6 { '6' }
    else if d == 7 { '7' }
    else if d == 8 { '8' }
    else if d == 9 { '9' }
    else if d == 10 { 'a' }
    else if d == 11 { 'b' }
    else if d == 12 { 'c' }
    else if d == 13 { 'd' }
    else if d == 14 { 'e' }
    else { 'f' }
}

/// The id of a new save: the time in milliseconds in lowercase hexadecimal,
/// followed by `-` and a counter when that id is already taken.
pub open spec fn save_id_text(base: u128, suffix: u32) -> Seq<char> {
    if suffix == 0 {
        unsigned_hex(base as nat)
    } else {
        unsigned_hex(base as nat) + "-"@ + unsigned_decimal(suffix as nat)
    }
}

fn hex_str(d: u128) -> (s: &'static str)
    requires
        d < 16,
    ensures
        s@ == seq![hex_digit(d as int)],
{
    proof {
        reveal_strlit("0"); reveal_strlit("1"); reveal_strlit("2"); reveal_strlit("3"); reveal_strlit("4"); reveal_strlit("5"); reveal_strlit("6"); reveal_strlit("7"); reveal_strlit("8"); reveal_strlit("9"); reveal_strlit("a"); reveal_strlit("b"); reveal_strlit("c"); reveal_strlit("d"); reveal_strlit("e"); reveal_strlit("f"); 
    }
    match d {
        0 => "0",
        1 => "1",
        2 => "2",
        3 => "3",
        4 => "4",
        5 => "5",
        6 => "6",
        7 => "7",
        8 => "8",
        9 => "9",
        10 => "a",
        11 => "b",
        12 => "c",
        13 => "d",
        14 => "e",
        _ => "f",
    }
}

fn append_hex(out: &mut String, n: u128)
    ensures
        final(out)@ == old(out)@ + unsigned_hex(n as nat),
    decreases n,
{
    if n >= 16 {
        append_hex(out, n / 16);
    }
    out.append(hex_str(n % 16));
    proof {
        if n >= 16 {
            assert(unsigned_hex(n as nat) == unsigned_hex((n / 16) as nat).push(hex_digit((n % 16) as int)));
        }
    }
    assert(final(out)@ =~= old(out)@ + unsigned_hex(n as nat));
}

/// The id of a new save made at `base` milliseconds, with `suffix` counting
/// the ids already taken.
pub fn save_id(base: u128, suffix: u32) -> (id: String)
    ensures
        id@ == save_id_text(base, suffix),
        valid_id(id@),
{
    let mut id = String::new();
    append_hex(&mut id, base);
    if suffix != 0 {
        id.append("-");
        append_unsigned(&mut id, suffix as u64);
    }
    proof {
        lemma_hex_valid(base as nat);
        lemma_decimal_valid(suffix as nat);
        reveal_strlit("-");
    }
    assert(id@ =~= save_id_text(base, suffix));
    id
}

proof fn lemma_hex_valid(n: nat)
    ensures
        valid_id(unsigned_hex(n)),
    decreases n,
{
    if n >= 16 {
        lemma_hex_valid(n / 16);
        let s = unsigned_hex(n / 16).push(hex_digit((n % 16) as int));
        assert forall|i: int| 0 <= i < s.len() implies id_char(#[trigger] s[i]) by {
            if i < s.len() - 1 {
                assert(s[i] == unsigned_hex(n / 16)[i]);
            }
        }
    }
}

proof fn lemma_decimal_valid(n: nat)
    ensures
        forall|i: int| 0 <= i < unsigned_decimal(n).len() ==> id_char(#[trigger] unsigned_decimal(n)[i]),
        unsigned_decimal(n).len() > 0,
    decreases n,
{
    if n >= 10 {
        lemma_decimal_valid(n / 10);
        let s = unsigned_decimal(n / 10).push(crate::decimal::digit_char((n % 10) as int));
        assert forall|i: int| 0 <= i < s.len() implies id_char(#[trigger] s[i]) by {
            if i < s.len() - 1 {
                assert(s[i] == unsigned_decimal(n / 10)[i]);
            }
        }
    }
}

/// Where a model tile of the first board layout lies on the current board.
pub open spec fn v1_tile(tile: int) -> Option<usize> {
    if tile == 1 {
        Some(1usize)
    } else if tile == 3 {
        Some(4usize)
    } else if tile == 6 {
        Some(7usize)
    } else if tile == 7 {
        Some(8usize)
    } else if tile == 8 {
        Some(10usize)
    } else if tile == 9 {
        Some(11usize)
    } else if tile == 11 {
        Some(13usize)
    } else if tile == 13 {
        Some(16usize)
    } else if tile == 16 {
        Some(19usize)
    } else if tile == 17 {
        Some(20usize)
    } else if tile == 18 {
        Some(22usize)
    } else if tile == 19 {
        Some(23usize)
    } else {
        None
    }
}

/// The tile of the first board layout that became `tile` on the current board.
pub open spec fn v1_source(tile: int) -> Option<usize> {
    if tile == 1 {
        Some(1usize)
    } else if tile == 4 {
        Some(3usize)
    } else if tile == 7 {
        Some(6usize)
    } else if tile == 8 {
        Some(7usize)
    } else if tile == 10 {
        Some(8usize)
    } else if tile == 11 {
        Some(9usize)
    } else if tile == 13 {
        Some(11usize)
    } else if tile == 16 {
        Some(13usize)
    } else if tile == 19 {
        Some(16usize)
    } else if tile == 20 {
        Some(17usize)
    } else if tile == 22 {
        Some(18usize)
    } else if tile == 23 {
        Some(19usize)
    } else {
        None
    }
}

/// A tile of the first layout moved to the current board; other values stay.
pub open spec fn v1_moved_tile(tile: usize) -> usize {
    match v1_tile(tile as int) {
        Some(t) => t,
        None => tile,
    }
}

/// Board positions of the first layout (20 spaces) on the current board.
pub open spec fn v1_positions() -> Seq<usize> {
    seq![0, 1, 2, 4, 5, 6, 7, 8, 10, 11, 12, 13, 14, 16, 17, 18, 19, 20, 22, 23]
}

/// A position of the first layout on the current board; positions past its
/// end wrap round the current board.
pub open spec fn v1_position(position: int) -> usize {
    if 0 <= position < 20 {
        v1_positions()[position]
    } else {
        (position % 24) as usize
    }
}

/// A log entry of the first layout, with its tiles and positions moved.
pub open spec fn v1_log(log: GameLog) -> GameLog {
    match log {
        GameLog::Moved { player, position } => GameLog::Moved { player, position: v1_position(position as int) },
        GameLog::Bought { player, tile, price } => GameLog::Bought { player, tile: v1_moved_tile(tile), price },
        GameLog::TensorAllocated { player, tile, tensors } => GameLog::TensorAllocated {
            player,
            tile: v1_moved_tile(tile),
            tensors,
        },
        GameLog::ReleasedTensor { player, tile, tensors } => GameLog::ReleasedTensor {
            player,
            tile: v1_moved_tile(tile),
            tensors,
        },
        GameLog::Archived { player, tile } => GameLog::Archived { player, tile: v1_moved_tile(tile) },
        GameLog::Restored { player, tile } => GameLog::Restored { player, tile: v1_moved_tile(tile) },
        other => other,
    }
}

/// The models of game `a` (first layout) as the current board holds them:
/// every model tile is present, with the state of the tile it came from.
pub open spec fn v1_models(a: Map<usize, ModelState>, t: usize) -> ModelState {
    match v1_source(t as int) {
        Some(o) => if a.contains_key(o) {
            a[o]
        } else {
            unowned_model()
        },
        None => unowned_model(),
    }
}

/// Game `b` is game `a`, saved with the first board layout, moved to the current board.
pub open spec fn migrated_v1(a: Game, b: Game) -> bool {
    &&& forall|t: usize| #[trigger] b.models@.contains_key(t) <==> is_model_tile(t as int)
    &&& forall|t: usize| #[trigger] b.models@.contains_key(t) ==> b.models@[t] == v1_models(a.models@, t)
    &&& b.players@.len() == a.players@.len()
    &&& forall|i: int| 0 <= i < a.players@.len() ==> #[trigger] b.players@[i] == (Player {
        position: v1_position(a.players@[i].position as int),
        ..a.players@[i]
    })
    &&& b.phase == match a.phase {
        Phase::OfferPurchase { tile } => Phase::OfferPurchase { tile: v1_moved_tile(tile) },
        other => other,
    }
    &&& b.auction == match a.auction {
        Some(x) => Some(AuctionState { tile: v1_moved_tile(x.tile), ..x }),
        None => None,
    }
    &&& b.pending_bank_auctions@ == a.pending_bank_auctions@.map_values(|t: usize| v1_moved_tile(t))
    &&& b.logs@ == a.logs@.map_values(|l: GameLog| v1_log(l))
    &&& b == (Game {
        models: b.models,
        players: b.players,
        phase: b.phase,
        auction: b.auction,
        pending_bank_auctions: b.pending_bank_auctions,
        logs: b.logs,
        ..a
    })
}

/// Where a model tile of the first board layout lies on the current board.
pub fn migrate_v1_tile(tile: usize) -> (moved: Option<usize>)
    ensures
        moved == v1_tile(tile as int),
{
    match tile {
        1 => Some(1),
        3 => Some(4),
        6 => Some(7),
        7 => Some(8),
        8 => Some(10),
        9 => Some(11),
        11 => Some(13),
        13 => Some(16),
        16 => Some(19),
        17 => Some(20),
        18 => Some(22),
        19 => Some(23),
        _ => None,
    }
}

/// A position of the first board layout on the current board.
pub fn migrate_v1_position(position: usize) -> (moved: usize)
    ensures
        moved == v1_position(position as int),
{
    match position {
        0 => 0,
        1 => 1,
        2 => 2,
        3 => 4,
        4 => 5,
        5 => 6,
        6 => 7,
        7 => 8,
        8 => 10,
        9 => 11,
        10 => 12,
        11 => 13,
        12 => 14,
        13 => 16,
        14 => 17,
        15 => 18,
        16 => 19,
        17 => 20,
        18 => 22,
        19 => 23,
        _ => position % 24,
    }
}

fn moved_tile(tile: usize) -> (moved: usize)
    ensures
        moved == v1_moved_tile(tile),
{
    match migrate_v1_tile(tile) {
        Some(t) => t,
        None => tile,
    }
}

/// Moves a game saved with the first board layout to the current board.
pub fn migrate_v1_game(game: &mut Game)
    ensures
        migrated_v1(*old(game), *final(game)),
{
    let mut models: BTreeMap<usize, ModelState> = BTreeMap::new();
    let mut m: usize = 0;
    proof { lemma_roster_tiles(); }
    while m < MODEL_COUNT
        invariant
            m <= MODEL_COUNT,
            forall|t: usize| #[trigger] models@.contains_key(t) <==> exists|k: int| 0 <= k < m && tile_of_index(k) == t,
            forall|t: usize| #[trigger] models@.contains_key(t) ==> models@[t] == unowned_model(),
        decreases MODEL_COUNT - m,
    {
        let definition = model_at(m);
        models.insert(definition.tile, ModelState::default());
        m = m + 1;
    }
    assert forall|t: usize| #[trigger] models@.contains_key(t) <==> is_model_tile(t as int) by {
        if is_model_tile(t as int) {
            let k = crate::catalog::index_of_tile(t as int);
            assert(tile_of_index(k) == t);
        }
    }
    let mut o: usize = 0;
    while o < 20
        invariant
            o <= 20,
            *game == *old(game),
            forall|t: usize| #[trigger] models@.contains_key(t) <==> is_model_tile(t as int),
            forall|t: usize| #[trigger] models@.contains_key(t) ==> models@[t] == match v1_source(t as int) {
                Some(src) => if src < o && old(game).models@.contains_key(src) {
                    old(game).models@[src]
                } else {
                    unowned_model()
                },
                None => unowned_model(),
            },
        decreases 20 - o,
    {
        match migrate_v1_tile(o) {
            Some(t) => match game.models.get(&o) {
                Some(state) => {
                    models.insert(t, *state);
                },
                None => {},
            },
            None => {},
        }
        o = o + 1;
    }
    assert forall|t: usize| #[trigger] models@.contains_key(t) implies models@[t] == v1_models(old(game).models@, t) by {
        if let Some(src) = v1_source(t as int) {
            assert(src < 20);
        }
    }
    let ghost new_models = models@;
    game.models = models;
    let n = game.players.len();
    let mut i: usize = 0;
    while i < n
        invariant
            n == game.players@.len(),
            n == old(game).players@.len(),
            i <= n,
            game.models@ == new_models,
            forall|t: usize| #[trigger] new_models.contains_key(t) <==> is_model_tile(t as int),
            forall|t: usize| #[trigger] new_models.contains_key(t) ==> new_models[t] == v1_models(old(game).models@, t),
            forall|k: int| 0 <= k < i ==> #[trigger] game.players@[k] == (Player {
                position: v1_position(old(game).players@[k].position as int),
                ..old(game).players@[k]
            }),
            forall|k: int| i <= k < n ==> #[trigger] game.players@[k] == old(game).players@[k],
            game.logs == old(game).logs,
            game.phase == old(game).phase,
            game.auction == old(game).auction,
            game.pending_bank_auctions == old(game).pending_bank_auctions,
            *game == (Game { models: game.models, players: game.players, ..*old(game) }),
        decreases n - i,
    {
        let moved = migrate_v1_position(game.players[i].position);
        game.players[i].position = moved;
        i = i + 1;
    }
    match game.phase {
        Phase::OfferPurchase { tile } => {
            game.phase = Phase::OfferPurchase { tile: moved_tile(tile) };
        },
        _ => {},
    }
    match &mut game.auction {
        Some(auction) => {
            auction.tile = moved_tile(auction.tile);
        },
        None => {},
    }
    let ghost mid = *game;
    let count = game.pending_bank_auctions.len();
    let mut k: usize = 0;
    while k < count
        invariant
            *game == (Game { pending_bank_auctions: game.pending_bank_auctions, ..mid }),
            count == game.pending_bank_auctions@.len(),
            count == old(game).pending_bank_auctions@.len(),
            k <= count,
            forall|j: int| 0 <= j < k ==> #[trigger] game.pending_bank_auctions@[j] == v1_moved_tile(
                old(game).pending_bank_auctions@[j],
            ),
            forall|j: int| k <= j < count ==> #[trigger] game.pending_bank_auctions@[j]
                == old(game).pending_bank_auctions@[j],
        decreases count - k,
    {
        let moved = moved_tile(game.pending_bank_auctions[k]);
        game.pending_bank_auctions.set(k, moved);
        k = k + 1;
    }
    assert(game.pending_bank_auctions@ =~= old(game).pending_bank_auctions@.map_values(|t: usize| v1_moved_tile(t)));
    let ghost mid2 = *game;
    let entries = game.logs.len();
    let mut e: usize = 0;
    while e < entries
        invariant
            *game == (Game { logs: game.logs, ..mid2 }),
            entries == game.logs@.len(),
            entries == old(game).logs@.len(),
            e <= entries,
            forall|j: int| 0 <= j < e ==> #[trigger] game.logs@[j] == v1_log(old(game).logs@[j]),
            forall|j: int| e <= j < entries ==> #[trigger] game.logs@[j] == old(game).logs@[j],
        decreases entries - e,
    {
        let moved: Option<GameLog> = match &game.logs[e] {
            GameLog::Moved { player, position } => Some(GameLog::Moved {
                player: *player,
                position: migrate_v1_position(*position),
            }),
            GameLog::Bought { player, tile, price } => Some(GameLog::Bought {
                player: *player,
                tile: moved_tile(*tile),
                price: *price,
            }),
            GameLog::TensorAllocated { player, tile, tensors } => Some(GameLog::TensorAllocated {
                player: *player,
                tile: moved_tile(*tile),
                tensors: *tensors,
            }),
            GameLog::ReleasedTensor { player, tile, tensors } => Some(GameLog::ReleasedTensor {
                player: *player,
                tile: moved_tile(*tile),
                tensors: *tensors,
            }),
            GameLog::Archived { player, tile } => Some(GameLog::Archived { player: *player, tile: moved_tile(*tile) }),
            GameLog::Restored { player, tile } => Some(GameLog::Restored { player: *player, tile: moved_tile(*tile) }),
            _ => None,
        };
        match moved {
            Some(entry) => {
                game.logs.set(e, entry);
            },
            None => {},
        }
        e = e + 1;
    }
    assert(game.logs@ =~= old(game).logs@.map_values(|l: GameLog| v1_log(l)));
    let ghost a = *old(game);
    let ghost b = *game;
    assert(forall|t: usize| #[trigger] b.models@.contains_key(t) <==> is_model_tile(t as int));
    assert(forall|t: usize| #[trigger] b.models@.contains_key(t) ==> b.models@[t] == v1_models(a.models@, t));
    assert(b.players@.len() == a.players@.len());
    assert(forall|i: int| 0 <= i < a.players@.len() ==> #[trigger] b.players@[i] == (Player {
        position: v1_position(a.players@[i].position as int),
        ..a.players@[i]
    }));
    assert(b.phase == match a.phase {
        Phase::OfferPurchase { tile } => Phase::OfferPurchase { tile: v1_moved_tile(tile) },
        other => other,
    });
    assert(b.auction == match a.auction {
        Some(x) => Some(AuctionState { tile: v1_moved_tile(x.tile), ..x }),
        None => None,
    });
}

/// The envelope `b` is save `a` brought to the current format.
pub open spec fn upgraded(a: SaveEnvelope, b: SaveEnvelope) -> bool {
    &&& b.schema_version == SAVE_VERSION
    &&& if a.schema_version == 1 {
        migrated_v1(a.game, b.game)
    } else {
        b.game == a.game
    }
    &&& b == (SaveEnvelope { schema_version: SAVE_VERSION, game: b.game, ..a })
}

/// Whether this library can read a save of this format version.
pub open spec fn readable_version(version: u32) -> bool {
    version == 1 || version == SAVE_VERSION
}

/// Brings a save that was just read to the current format: a save of the
/// first board layout is moved to the current board; an unknown version is refused.
pub fn upgrade(envelope: SaveEnvelope) -> (result: Result<SaveEnvelope, SaveError>)
    ensures
        !readable_version(envelope.schema_version) ==> result == Err::<SaveEnvelope, SaveError>(
            SaveError::UnsupportedVersion(envelope.schema_version),
        ),
        readable_version(envelope.schema_version) ==> (result matches Ok(e) && upgraded(envelope, e)),
{
    if envelope.schema_version != 1 && envelope.schema_version != SAVE_VERSION {
        return Err(SaveError::UnsupportedVersion(envelope.schema_version));
    }
    let mut envelope = envelope;
    if envelope.schema_version == 1 {
        migrate_v1_game(&mut envelope.game);
        envelope.schema_version = SAVE_VERSION;
    }
    Ok(envelope)
}

/// The save manager's line for a save that was read: it shows the version
/// when this library cannot open it.
pub open spec fn summary_of(e: SaveEnvelope, s: SaveSummary) -> bool {
    &&& s.id == e.id
    &&& s.name == e.name
    &&& s.updated_at_ms == e.updated_at_ms
    &&& s.round == e.game.round
    &&& if readable_version(e.schema_version) {
        s.error is None
    } else {
        s.error matches Some(m) && m@ == "version "@ + unsigned_decimal(e.schema_version as nat)
    }
}

/// The save manager's line for a save that was read.
pub fn summarize(envelope: &SaveEnvelope) -> (summary: SaveSummary)
    ensures
        summary_of(*envelope, summary),
{
    let error = if envelope.schema_version == 1 || envelope.schema_version == SAVE_VERSION {
        None
    } else {
        let mut text = String::from_str("version ");
        append_unsigned(&mut text, envelope.schema_version as u64);
        Some(text)
    };
    SaveSummary {
        id: envelope.id.clone(),
        name: envelope.name.clone(),
        updated_at_ms: envelope.updated_at_ms,
        round: envelope.game.round,
        error,
    }
}

/// The save manager's line for a file that could not be read.
pub fn corrupt_summary(id: String, error: String) -> (summary: SaveSummary)
    ensures
        summary.id == id,
        summary.name@ == "<corrupt>"@,
        summary.updated_at_ms == 0,
        summary.round == 0,
        summary.error == Some(error),
{
    SaveSummary { id, name: String::from_str("<corrupt>"), updated_at_ms: 0, round: 0, error: Some(error) }
}

/// Newest first: no save is older than one after it.
pub open spec fn newest_first(saves: Seq<SaveSummary>) -> bool {
    forall|i: int, j: int| 0 <= i < j < saves.len() ==> #[trigger] saves[i].updated_at_ms >= #[trigger] saves[j].updated_at_ms
}

/// The saves stamped with time `t`, in their order.
pub open spec fn stamped(saves: Seq<SaveSummary>, t: u64) -> Seq<SaveSummary> {
    saves.filter(|s: SaveSummary| s.updated_at_ms == t)
}

/// Saves all older than `t` have none stamped `t`.
proof fn lemma_none_stamped(saves: Seq<SaveSummary>, t: u64)
    requires
        forall|i: int| 0 <= i < saves.len() ==> #[trigger] saves[i].updated_at_ms < t,
    ensures
        stamped(saves, t).len() == 0,
{
    let pred = |s: SaveSummary| s.updated_at_ms == t;
    assert(saves.all(|x: SaveSummary| !pred(x)));
    saves.lemma_all_neg_filter_empty(pred);
}

/// Orders saves newest first; saves of the same time keep their order.
pub fn sort_newest_first(saves: Vec<SaveSummary>) -> (sorted: Vec<SaveSummary>)
    ensures
        sorted@.to_multiset() == saves@.to_multiset(),
        newest_first(sorted@),
        forall|t: u64| #[trigger] stamped(sorted@, t) == stamped(saves@, t),
{
    broadcast use vstd::seq_lib::group_to_multiset_ensures;
    broadcast use vstd::multiset::group_multiset_axioms;
    broadcast use vstd::multiset::group_multiset_properties;
    let mut input = saves;
    let mut out: Vec<SaveSummary> = Vec::new();
    assert(out@.to_multiset() =~= vstd::multiset::Multiset::empty());
    while input.len() > 0
        invariant
            newest_first(out@),
            out@.to_multiset().add(input@.to_multiset()) == saves@.to_multiset(),
            forall|t: u64| #[trigger] stamped(saves@, t) == stamped(out@, t) + stamped(input@, t),
        decreases input@.len(),
    {
        let ghost before = input@;
        let item = input.remove(0);
        let key = item.updated_at_ms;
        let mut k: usize = 0;
        while k < out.len() && out[k].updated_at_ms >= key
            invariant
                k <= out@.len(),
                forall|j: int| 0 <= j < k ==> #[trigger] out@[j].updated_at_ms >= key,
            decreases out@.len() - k,
        {
            k = k + 1;
        }
        let ghost previous = out@;
        out.insert(k, item);
        proof {
            assert forall|i: int, j: int| 0 <= i < j < out@.len() implies #[trigger] out@[i].updated_at_ms
                >= #[trigger] out@[j].updated_at_ms by {
                if j < k {
                    assert(out@[i] == previous[i] && out@[j] == previous[j]);
                } else if j == k {
                    assert(out@[i] == previous[i]);
                } else if i < k {
                    assert(out@[i] == previous[i] && out@[j] == previous[j - 1]);
                    assert(previous[k as int].updated_at_ms < key);
                } else if i == k {
                    assert(out@[j] == previous[j - 1]);
                    assert(previous[k as int].updated_at_ms < key);
                } else {
                    assert(out@[i] == previous[i - 1] && out@[j] == previous[j - 1]);
                }
            }
            assert(before.remove(0) == input@);
            assert(before[0] == item);
            assert(before.contains(item));
            vstd::seq_lib::to_multiset_contains(before, before[0]);
            vstd::seq_lib::to_multiset_remove(before, 0);
            vstd::seq_lib::to_multiset_insert(previous, k as int, before[0]);
            assert(before.to_multiset().count(before[0]) > 0);
            assert(out@.to_multiset().add(input@.to_multiset()) =~= saves@.to_multiset());
            assert(before =~= seq![item] + input@);
            assert(out@ =~= previous.subrange(0, k as int) + seq![item] + previous.subrange(k as int, previous.len() as int));
            assert(previous =~= previous.subrange(0, k as int) + previous.subrange(k as int, previous.len() as int));
            assert forall|t: u64| #[trigger] stamped(saves@, t) == stamped(out@, t) + stamped(input@, t) by {
                let pred = |s: SaveSummary| s.updated_at_ms == t;
                let low = previous.subrange(0, k as int);
                let high = previous.subrange(k as int, previous.len() as int);
                input@.lemma_filter_prepend(item, pred);
                Seq::filter_distributes_over_add(low + seq![item], high, pred);
                Seq::filter_distributes_over_add(low, seq![item], pred);
                Seq::filter_distributes_over_add(low, high, pred);
                seq![item].lemma_filter_prepend(item, |s: SaveSummary| false);
                reveal_with_fuel(Seq::filter, 2);
                if key == t {
                    assert forall|i: int| 0 <= i < high.len() implies #[trigger] high[i].updated_at_ms < t by {
                        assert(high[i] == previous[k + i]);
                        assert(previous[k as int].updated_at_ms < key);
                    }
                    lemma_none_stamped(high, t);
                    assert(stamped(high, t) =~= Seq::empty());
                    assert(stamped(out@, t) + stamped(input@, t) =~= stamped(previous, t) + stamped(before, t));
                } else {
                    assert(stamped(out@, t) + stamped(input@, t) =~= stamped(previous, t) + stamped(before, t));
                }
            }
        }
    }
    out
}

} // verus!
