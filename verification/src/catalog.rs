//! The fixed parts of the game: the board, the model roster, prices and cards.
use vstd::prelude::*;

verus! {

/// Credits every player starts with.
pub const START_CREDITS: i32 = 1500;
/// Starting credits of the human player in easy mode.
pub const EASY_START_CREDITS: i32 = 2000;
/// Credits paid out for passing or reaching the hub.
pub const PASS_START_BONUS: i32 = 200;
/// Fee for leaving cooldown.
pub const COOLDOWN_FEE: i32 = 50;
/// Most tensors a model can hold.
pub const MAX_TENSORS: u8 = 4;
/// Number of spaces on the board.
pub const BOARD_SIZE: usize = 24;
/// Number of models on the board.
pub const MODEL_COUNT: usize = 16;
/// Position of the cooldown space.
pub const COOLDOWN_POSITION: usize = 6;

/// Language of the user interface.
#[derive(Debug, Clone, Copy, PartialEq, Eq, Structural)]
pub enum Language {
    ZhCn,
    En,
}

/// How cautious the bots are with their money.
#[derive(Debug, Clone, Copy, PartialEq, Eq, Structural)]
pub enum Difficulty {
    Standard,
    Easy,
}

/// The four model families; owning three of a family unlocks tensors.
#[derive(Debug, Clone, Copy, PartialEq, Eq, Structural)]
pub enum ModelFamily {
    Qwen,
    Llama,
    DeepSeek,
    Kimi,
}

/// One model of the roster and where it sits on the board.
#[derive(Debug, Clone, Copy, PartialEq, Eq)]
pub struct ModelDef {
    pub tile: usize,
    pub short_name: &'static str,
    pub hf_id: &'static str,
    pub family: ModelFamily,
    pub parameter_count: u64,
    pub tensor_cost: i32,
}

/// What a board space does when a player lands on it.
#[derive(Debug, Clone, Copy, PartialEq, Eq, Structural)]
pub enum Space {
    Hub,
    Model(usize),
    RandomSeed,
    ComputeBill(i32),
    Cooldown,
    CacheHit,
    ContextOverflow,
}

/// The cards of the random-seed deck.
#[derive(Debug, Clone, Copy, PartialEq, Eq, Structural)]
pub enum Card {
    Gain50,
    Gain100,
    Gain150,
    Pay50,
    Pay100,
    Collect25Each,
    Pay25Each,
    AdvanceHub,
    AdvanceFlagship,
    BackThree,
    EnterCooldown,
    BypassToken,
}

/// Every third space (0, 3, ..., 21) is a special space; all others hold a model.
pub open spec fn is_model_tile(tile: int) -> bool {
    0 <= tile < 24 && tile % 3 != 0
}

/// The space at a board position.
pub open spec fn space_at(position: int) -> Space {
    if position == 0 {
        Space::Hub
    } else if position == 3 || position == 15 {
        Space::RandomSeed
    } else if position == 6 {
        Space::Cooldown
    } else if position == 9 {
        Space::ComputeBill(100)
    } else if position == 12 {
        Space::CacheHit
    } else if position == 18 {
        Space::ContextOverflow
    } else if position == 21 {
        Space::ComputeBill(200)
    } else {
        Space::Model(position as usize)
    }
}

/// Board tile of the model at a roster index (the roster lists models by tile).
pub open spec fn tile_of_index(index: int) -> int {
    index + index / 2 + 1
}

/// Roster index of the model on a tile.
pub open spec fn index_of_tile(tile: int) -> int {
    tile - tile / 3 - 1
}

/// The family of the model on a tile: each family holds one side of the board.
pub open spec fn family_of_tile(tile: int) -> ModelFamily {
    if tile < 6 {
        ModelFamily::Qwen
    } else if tile < 12 {
        ModelFamily::Llama
    } else if tile < 18 {
        ModelFamily::DeepSeek
    } else {
        ModelFamily::Kimi
    }
}

/// Number of a family, in board order.
pub open spec fn family_number(family: ModelFamily) -> int {
    match family {
        ModelFamily::Qwen => 0,
        ModelFamily::Llama => 1,
        ModelFamily::DeepSeek => 2,
        ModelFamily::Kimi => 3,
    }
}

/// The four tiles of a family, in board order.
pub open spec fn family_tile(family: ModelFamily, k: int) -> int {
    let base = 6 * family_number(family);
    if k == 0 {
        base + 1
    } else if k == 1 {
        base + 2
    } else if k == 2 {
        base + 4
    } else {
        base + 5
    }
}

/// Cost of one tensor on a model of a family.
pub open spec fn tensor_cost_of(family: ModelFamily) -> int {
    50 * (family_number(family) + 1)
}

/// Parameter count of the model on a tile.
pub open spec fn parameters_of_tile(tile: int) -> u64 {
    if tile == 1 {
        600_000_000
    } else if tile == 2 {
        1_700_000_000
    } else if tile == 4 {
        4_000_000_000
    } else if tile == 5 {
        32_000_000_000
    } else if tile == 7 {
        1_000_000_000
    } else if tile == 8 {
        3_000_000_000
    } else if tile == 10 {
        8_000_000_000
    } else if tile == 11 {
        70_000_000_000
    } else if tile == 13 {
        1_500_000_000
    } else if tile == 14 {
        7_000_000_000
    } else if tile == 16 {
        32_000_000_000
    } else if tile == 17 {
        671_000_000_000
    } else if tile == 19 {
        16_000_000_000
    } else if tile == 20 {
        49_000_000_000
    } else if tile == 22 {
        73_000_000_000
    } else {
        1_000_000_000_000
    }
}

/// Display name of the model on a tile.
pub open spec fn short_name_of(tile: int) -> Seq<char> {
    if tile == 1 {
        "Qwen3 0.6B"@
    } else if tile == 2 {
        "Qwen3 1.7B"@
    } else if tile == 4 {
        "Qwen3 4B"@
    } else if tile == 5 {
        "Qwen3 32B"@
    } else if tile == 7 {
        "Llama 3.2 1B"@
    } else if tile == 8 {
        "Llama 3.2 3B"@
    } else if tile == 10 {
        "Llama 3.1 8B"@
    } else if tile == 11 {
        "Llama 3.3 70B"@
    } else if tile == 13 {
        "DS-R1 1.5B"@
    } else if tile == 14 {
        "DS-R1 7B"@
    } else if tile == 16 {
        "DS-R1 32B"@
    } else if tile == 17 {
        "DeepSeek-R1"@
    } else if tile == 19 {
        "Moonlight 16B"@
    } else if tile == 20 {
        "Kimi Linear 49B"@
    } else if tile == 22 {
        "Kimi Dev 73B"@
    } else {
        "Kimi K2 1T"@
    }
}

/// Hugging Face id of the model on a tile.
pub open spec fn hf_id_of(tile: int) -> Seq<char> {
    if tile == 1 {
        "Qwen/Qwen3-0.6B"@
    } else if tile == 2 {
        "Qwen/Qwen3-1.7B"@
    } else if tile == 4 {
        "Qwen/Qwen3-4B"@
    } else if tile == 5 {
        "Qwen/Qwen3-32B"@
    } else if tile == 7 {
        "meta-llama/Llama-3.2-1B"@
    } else if tile == 8 {
        "meta-llama/Llama-3.2-3B"@
    } else if tile == 10 {
        "meta-llama/Meta-Llama-3.1-8B"@
    } else if tile == 11 {
        "meta-llama/Llama-3.3-70B-Instruct"@
    } else if tile == 13 {
        "deepseek-ai/DeepSeek-R1-Distill-Qwen-1.5B"@
    } else if tile == 14 {
        "deepseek-ai/DeepSeek-R1-Distill-Qwen-7B"@
    } else if tile == 16 {
        "deepseek-ai/DeepSeek-R1-Distill-Qwen-32B"@
    } else if tile == 17 {
        "deepseek-ai/DeepSeek-R1"@
    } else if tile == 19 {
        "moonshotai/Moonlight-16B-A3B-Instruct"@
    } else if tile == 20 {
        "moonshotai/Kimi-Linear-48B-A3B-Instruct"@
    } else if tile == 22 {
        "moonshotai/Kimi-Dev-72B"@
    } else {
        "moonshotai/Kimi-K2-Instruct"@
    }
}

/// Roster entry of a model tile.
pub open spec fn roster_matches(definition: ModelDef, tile: int) -> bool {
    &&& definition.tile == tile
    &&& definition.family == family_of_tile(tile)
    &&& definition.parameter_count == parameters_of_tile(tile)
    &&& definition.tensor_cost == tensor_cost_of(family_of_tile(tile))
    &&& definition.short_name@ == short_name_of(tile)
    &&& definition.hf_id@ == hf_id_of(tile)
}

/// The price is 100 plus the logarithmic position of the parameter count between
/// 0.6B and 1T parameters scaled to 200, rounded to the nearest 10. These are
/// the parameter counts at which it steps up by 10.
pub open spec fn price_thresholds() -> Seq<u64> {
    seq![
        722266496u64, 1046622114, 1516639435, 2197732253, 3184690403,
        4614871966, 6687319824, 9690463086, 14042258675, 20348359717,
        29486406195, 42728168874, 61916545653, 89722043481, 130014441238,
        188401359071, 273008688587, 395611498832, 573272809807, 830718306810,
    ]
}

/// How many of the first `n` price steps a parameter count has reached.
pub open spec fn steps_reached(parameter_count: u64, n: int) -> int
    decreases n,
{
    if n <= 0 {
        0
    } else {
        steps_reached(parameter_count, n - 1) + if parameter_count >= price_thresholds()[n - 1] {
            1int
        } else {
            0int
        }
    }
}

/// Price of a model with a given parameter count.
pub open spec fn price_of(parameter_count: u64) -> int {
    100 + 10 * steps_reached(parameter_count, 20)
}

proof fn lemma_steps_bounded(parameter_count: u64, n: int)
    requires
        0 <= n,
    ensures
        0 <= steps_reached(parameter_count, n) <= n,
    decreases n,
{
    if n > 0 {
        lemma_steps_bounded(parameter_count, n - 1);
    }
}

proof fn lemma_steps_monotone(smaller: u64, larger: u64, n: int)
    requires
        smaller <= larger,
    ensures
        steps_reached(smaller, n) <= steps_reached(larger, n),
    decreases n,
{
    if n > 0 {
        lemma_steps_monotone(smaller, larger, n - 1);
    }
}

/// A model with more parameters never costs less, and every price is a
/// multiple of 10.
pub proof fn lemma_price_monotone(smaller: u64, larger: u64)
    requires
        smaller <= larger,
    ensures
        price_of(smaller) <= price_of(larger),
        price_of(smaller) % 10 == 0,
{
    lemma_steps_monotone(smaller, larger, 20);
}

/// Every price lies between 100 and 300.
pub proof fn lemma_price_range(parameter_count: u64)
    ensures
        100 <= price_of(parameter_count) <= 300,
        price_of(parameter_count) % 10 == 0,
{
    lemma_steps_bounded(parameter_count, 20);
}

/// Price of a model with the given parameter count: 100 credits at 0.6B
/// parameters or fewer, 300 at 1T or more, logarithmic in between.
pub fn model_price(parameter_count: u64) -> (price: i32)
    ensures
        price == price_of(parameter_count),
{
    let thresholds: [u64; 20] = [
        722266496, 1046622114, 1516639435, 2197732253, 3184690403,
        4614871966, 6687319824, 9690463086, 14042258675, 20348359717,
        29486406195, 42728168874, 61916545653, 89722043481, 130014441238,
        188401359071, 273008688587, 395611498832, 573272809807, 830718306810,
    ];
    assert(thresholds@ =~= price_thresholds());
    let mut steps: i32 = 0;
    let mut i: usize = 0;
    while i < 20
        invariant
            0 <= i <= 20,
            thresholds@ == price_thresholds(),
            steps == steps_reached(parameter_count, i as int),
            0 <= steps <= i,
        decreases 20 - i,
    {
        if parameter_count >= thresholds[i] {
            steps = steps + 1;
        }
        i = i + 1;
    }
    100 + 10 * steps
}

impl ModelDef {
    /// Display name of the model; the same in every language.
    pub fn name(&self, language: Language) -> (name: &'static str)
        ensures
            name@ == self.short_name@,
    {
        let _ = language;
        self.short_name
    }

    /// Purchase price.
    pub fn price(&self) -> (price: i32)
        ensures
            price == price_of(self.parameter_count),
    {
        model_price(self.parameter_count)
    }

    /// Usage fee of the bare model: a tenth of its price.
    pub fn base_fee(&self) -> (fee: i32)
        ensures
            fee == price_of(self.parameter_count) / 10,
    {
        proof { lemma_price_range(self.parameter_count); }
        self.price() / 10
    }

    /// Credits for archiving the model: half its price.
    pub fn archive_value(&self) -> (value: i32)
        ensures
            value == price_of(self.parameter_count) / 2,
    {
        proof { lemma_price_range(self.parameter_count); }
        self.price() / 2
    }
}

/// The `k`-th tile of a family.
pub fn family_tile_of(family: ModelFamily, k: usize) -> (tile: usize)
    requires
        k < 4,
    ensures
        tile == family_tile(family, k as int),
        is_model_tile(tile as int),
        family_of_tile(tile as int) == family,
{
    let base: usize = match family {
        ModelFamily::Qwen => 0,
        ModelFamily::Llama => 6,
        ModelFamily::DeepSeek => 12,
        ModelFamily::Kimi => 18,
    };
    if k == 0 {
        base + 1
    } else if k == 1 {
        base + 2
    } else if k == 2 {
        base + 4
    } else {
        base + 5
    }
}

/// The space at a board position.
pub fn board_space(position: usize) -> (space: Space)
    requires
        position < BOARD_SIZE,
    ensures
        space == space_at(position as int),
{
    if position == 0 {
        Space::Hub
    } else if position == 3 || position == 15 {
        Space::RandomSeed
    } else if position == 6 {
        Space::Cooldown
    } else if position == 9 {
        Space::ComputeBill(100)
    } else if position == 12 {
        Space::CacheHit
    } else if position == 18 {
        Space::ContextOverflow
    } else if position == 21 {
        Space::ComputeBill(200)
    } else {
        Space::Model(position)
    }
}

/// The whole board, by position.
pub fn board() -> (spaces: Vec<Space>)
    ensures
        spaces@.len() == BOARD_SIZE,
        forall|i: int| 0 <= i < BOARD_SIZE ==> #[trigger] spaces@[i] == space_at(i),
{
    let mut spaces: Vec<Space> = Vec::new();
    let mut i: usize = 0;
    while i < BOARD_SIZE
        invariant
            i <= BOARD_SIZE,
            spaces@.len() == i,
            forall|k: int| 0 <= k < i ==> #[trigger] spaces@[k] == space_at(k),
        decreases BOARD_SIZE - i,
    {
        spaces.push(board_space(i));
        i = i + 1;
    }
    spaces
}

/// The roster entry at an index, in board order.
pub fn model_at(index: usize) -> (definition: ModelDef)
    requires
        index < MODEL_COUNT,
    ensures
        roster_matches(definition, tile_of_index(index as int)),
{
    match index {
        0 => ModelDef { tile: 1, short_name: "Qwen3 0.6B", hf_id: "Qwen/Qwen3-0.6B", family: ModelFamily::Qwen, parameter_count: 600_000_000, tensor_cost: 50 },
        1 => ModelDef { tile: 2, short_name: "Qwen3 1.7B", hf_id: "Qwen/Qwen3-1.7B", family: ModelFamily::Qwen, parameter_count: 1_700_000_000, tensor_cost: 50 },
        2 => ModelDef { tile: 4, short_name: "Qwen3 4B", hf_id: "Qwen/Qwen3-4B", family: ModelFamily::Qwen, parameter_count: 4_000_000_000, tensor_cost: 50 },
        3 => ModelDef { tile: 5, short_name: "Qwen3 32B", hf_id: "Qwen/Qwen3-32B", family: ModelFamily::Qwen, parameter_count: 32_000_000_000, tensor_cost: 50 },
        4 => ModelDef { tile: 7, short_name: "Llama 3.2 1B", hf_id: "meta-llama/Llama-3.2-1B", family: ModelFamily::Llama, parameter_count: 1_000_000_000, tensor_cost: 100 },
        5 => ModelDef { tile: 8, short_name: "Llama 3.2 3B", hf_id: "meta-llama/Llama-3.2-3B", family: ModelFamily::Llama, parameter_count: 3_000_000_000, tensor_cost: 100 },
        6 => ModelDef { tile: 10, short_name: "Llama 3.1 8B", hf_id: "meta-llama/Meta-Llama-3.1-8B", family: ModelFamily::Llama, parameter_count: 8_000_000_000, tensor_cost: 100 },
        7 => ModelDef { tile: 11, short_name: "Llama 3.3 70B", hf_id: "meta-llama/Llama-3.3-70B-Instruct", family: ModelFamily::Llama, parameter_count: 70_000_000_000, tensor_cost: 100 },
        8 => ModelDef { tile: 13, short_name: "DS-R1 1.5B", hf_id: "deepseek-ai/DeepSeek-R1-Distill-Qwen-1.5B", family: ModelFamily::DeepSeek, parameter_count: 1_500_000_000, tensor_cost: 150 },
        9 => ModelDef { tile: 14, short_name: "DS-R1 7B", hf_id: "deepseek-ai/DeepSeek-R1-Distill-Qwen-7B", family: ModelFamily::DeepSeek, parameter_count: 7_000_000_000, tensor_cost: 150 },
        10 => ModelDef { tile: 16, short_name: "DS-R1 32B", hf_id: "deepseek-ai/DeepSeek-R1-Distill-Qwen-32B", family: ModelFamily::DeepSeek, parameter_count: 32_000_000_000, tensor_cost: 150 },
        11 => ModelDef { tile: 17, short_name: "DeepSeek-R1", hf_id: "deepseek-ai/DeepSeek-R1", family: ModelFamily::DeepSeek, parameter_count: 671_000_000_000, tensor_cost: 150 },
        12 => ModelDef { tile: 19, short_name: "Moonlight 16B", hf_id: "moonshotai/Moonlight-16B-A3B-Instruct", family: ModelFamily::Kimi, parameter_count: 16_000_000_000, tensor_cost: 200 },
        13 => ModelDef { tile: 20, short_name: "Kimi Linear 49B", hf_id: "moonshotai/Kimi-Linear-48B-A3B-Instruct", family: ModelFamily::Kimi, parameter_count: 49_000_000_000, tensor_cost: 200 },
        14 => ModelDef { tile: 22, short_name: "Kimi Dev 73B", hf_id: "moonshotai/Kimi-Dev-72B", family: ModelFamily::Kimi, parameter_count: 73_000_000_000, tensor_cost: 200 },
        _ => ModelDef { tile: 23, short_name: "Kimi K2 1T", hf_id: "moonshotai/Kimi-K2-Instruct", family: ModelFamily::Kimi, parameter_count: 1_000_000_000_000, tensor_cost: 200 },
    }
}

/// The whole roster, in board order.
pub fn models() -> (roster: Vec<ModelDef>)
    ensures
        roster@.len() == MODEL_COUNT,
        forall|i: int| 0 <= i < MODEL_COUNT ==> roster_matches(#[trigger] roster@[i], tile_of_index(i)),
{
    let mut roster: Vec<ModelDef> = Vec::new();
    let mut i: usize = 0;
    while i < MODEL_COUNT
        invariant
            i <= MODEL_COUNT,
            roster@.len() == i,
            forall|k: int| 0 <= k < i ==> roster_matches(#[trigger] roster@[k], tile_of_index(k)),
        decreases MODEL_COUNT - i,
    {
        roster.push(model_at(i));
        i = i + 1;
    }
    roster
}

/// The roster entry of the model on a tile, if the tile holds one.
pub fn model(tile: usize) -> (definition: Option<ModelDef>)
    ensures
        definition.is_some() <==> is_model_tile(tile as int),
        definition matches Some(d) ==> roster_matches(d, tile as int),
{
    if tile < BOARD_SIZE && tile % 3 != 0 {
        let d = model_at(tile - tile / 3 - 1);
        Some(d)
    } else {
        None
    }
}

} // verus!
