//! The farm: its state, the player's actions and the machinery.
//!
//! Time is counted in milliseconds and growth multipliers in basis points
//! (ten thousandths), so that every rule is exact integer arithmetic.
use vstd::prelude::*;

use crate::data::{
    lookup_crop, lookup_upgrade, CropCatalog, CropDefinition, UpgradeCatalog, UpgradeDefinition,
    UpgradeKind,
};
use crate::price::{sale_amount, sale_amount_of};
use crate::keyed::{pairs_map, sorted_pairs, lemma_pairs_map_at, TextMap};
use crate::text::{
    decimal, joined, lemma_text_less_irreflexive, lemma_text_less_total, lemma_text_less_transitive, owned,
    push_decimal, text_less,
};

verus! {

/// Coins a new farm starts with.
pub const STARTING_COINS: u64 = 20;

/// Rows and columns of a new farm.
pub const STARTING_SIZE: u32 = 3;

/// A multiplier of one, in basis points.
pub const MULTIPLIER_ONE: u64 = 10_000;

/// Crops grow a quarter faster while the game is open (1.25, in basis points).
pub const ACTIVE_GROWTH_MULTIPLIER: u64 = 12_500;

/// The most machine runs that one automation step performs per machine.
pub const MAX_CYCLES: u64 = 1_000;

/// One field tile.
#[derive(Debug, Clone, PartialEq, Eq)]
pub enum TileState {
    Untilled,
    Tilled,
    /// A growing crop; `progress_ms` is the growth so far, in milliseconds.
    Planted { crop_id: String, progress_ms: u64 },
}

/// A machine's level and the time it has accumulated towards its next run.
#[derive(Debug, Clone, Copy, PartialEq, Eq, Structural)]
pub struct UpgradeState {
    pub level: u32,
    pub elapsed_ms: u64,
}

/// The whole state of a farm.
#[derive(Debug)]
pub struct GameState {
    pub coins: u64,
    pub run_earnings: u64,
    pub rebirth_tokens: u32,
    pub rebirth_count: u32,
    pub rows: u32,
    pub cols: u32,
    pub selected_crop: usize,
    /// Row-major tiles.
    pub tiles: Vec<TileState>,
    pub seeds: TextMap<u32>,
    pub produce: TextMap<u32>,
    pub upgrades: TextMap<UpgradeState>,
    pub last_seen_utc: i64,
}

/// The mathematical picture of a farm.
pub struct GameModel {
    pub coins: u64,
    pub run_earnings: u64,
    pub rebirth_tokens: u32,
    pub rebirth_count: u32,
    pub rows: u32,
    pub cols: u32,
    pub selected_crop: usize,
    pub tiles: Seq<TileState>,
    pub seeds: Map<Seq<char>, u32>,
    pub produce: Map<Seq<char>, u32>,
    pub upgrades: Map<Seq<char>, UpgradeState>,
    pub last_seen_utc: i64,
}

impl View for GameState {
    type V = GameModel;

    open spec fn view(&self) -> GameModel {
        GameModel {
            coins: self.coins,
            run_earnings: self.run_earnings,
            rebirth_tokens: self.rebirth_tokens,
            rebirth_count: self.rebirth_count,
            rows: self.rows,
            cols: self.cols,
            selected_crop: self.selected_crop,
            tiles: self.tiles@,
            seeds: self.seeds@,
            produce: self.produce@,
            upgrades: self.upgrades@,
            last_seen_utc: self.last_seen_utc,
        }
    }
}

/// What an action did: whether it changed the farm, and its message.
pub struct Outcome {
    pub changed: bool,
    pub message: Seq<char>,
}

pub open spec fn changed_with(message: Seq<char>) -> Outcome {
    Outcome { changed: true, message }
}

pub open spec fn unchanged_with(message: Seq<char>) -> Outcome {
    Outcome { changed: false, message }
}

/// The result of a player action, with a message for the status line.
#[derive(Debug, Clone, PartialEq, Eq)]
pub enum ActionResult {
    Changed(String),
    Unchanged(String),
}

impl View for ActionResult {
    type V = Outcome;

    open spec fn view(&self) -> Outcome {
        match self {
            ActionResult::Changed(m) => changed_with(m@),
            ActionResult::Unchanged(m) => unchanged_with(m@),
        }
    }
}

impl ActionResult {
    /// Whether the action changed the farm.
    pub fn changed(&self) -> (res: bool)
        ensures
            res == self@.changed,
    {
        match self {
            ActionResult::Changed(_) => true,
            ActionResult::Unchanged(_) => false,
        }
    }

    /// The action's message.
    pub fn message(self) -> (res: String)
        ensures
            res@ == self@.message,
    {
        match self {
            ActionResult::Changed(message) => message,
            ActionResult::Unchanged(message) => message,
        }
    }
}

/// Why a saved farm was refused.
#[derive(Debug, PartialEq, Eq)]
pub enum GameError {
    InvalidDimensions,
    UnknownCrop(String),
    InvalidSelection,
    UnknownUpgrade(String),
}

// ---------------------------------------------------------------------------
// Arithmetic

/// `2` to the power `e`.
pub open spec fn two_pow(e: nat) -> nat
    decreases e,
{
    if e == 0 {
        1
    } else {
        2 * two_pow((e - 1) as nat)
    }
}

/// A value, capped at `u64::MAX`.
pub open spec fn saturate(x: int) -> u64 {
    if x > u64::MAX {
        u64::MAX
    } else {
        x as u64
    }
}

/// Multiplication that stops at `u64::MAX`.
pub fn saturating_mul(a: u64, b: u64) -> (res: u64)
    ensures
        res == saturate(a * b),
{
    match a.checked_mul(b) {
        Some(p) => p,
        None => u64::MAX,
    }
}

/// `2` to the power `e`, stopping at `u64::MAX`.
pub fn saturating_pow2(e: u32) -> (res: u64)
    ensures
        res == saturate(two_pow(e as nat) as int),
{
    let mut res: u64 = 1;
    let mut i: u32 = 0;
    while i < e
        invariant
            i <= e,
            res == saturate(two_pow(i as nat) as int),
        decreases e - i,
    {
        proof {
            lemma_two_pow_positive(i as nat);
        }
        res = saturating_mul(res, 2);
        i = i + 1;
    }
    res
}

proof fn lemma_two_pow_positive(e: nat)
    ensures
        two_pow(e) >= 1,
    decreases e,
{
    if e > 0 {
        lemma_two_pow_positive((e - 1) as nat);
    }
}

// ---------------------------------------------------------------------------
// The model's vocabulary

/// How many of an item the inventory holds; zero when the item is absent.
pub open spec fn count_of(m: Map<Seq<char>, u32>, k: Seq<char>) -> u32 {
    if m.contains_key(k) {
        m[k]
    } else {
        0
    }
}

/// A machine's state; level zero and no time when it was never bought.
pub open spec fn upgrade_state_of(m: Map<Seq<char>, UpgradeState>, k: Seq<char>) -> UpgradeState {
    if m.contains_key(k) {
        m[k]
    } else {
        UpgradeState { level: 0, elapsed_ms: 0 }
    }
}

/// The row-major position of a tile, when it lies on the farm.
pub open spec fn tile_index(g: GameModel, row: u32, col: u32) -> Option<int> {
    if row < g.rows && col < g.cols {
        Some(row * g.cols + col)
    } else {
        None
    }
}

/// The tile position can be computed without overflow.
pub open spec fn index_fits(g: GameModel, row: u32, col: u32) -> bool {
    row < g.rows && col < g.cols ==> row * g.cols + col <= u32::MAX
}

/// The tile count agrees with the farm's dimensions.
pub open spec fn dims_match(g: GameModel) -> bool {
    g.tiles.len() == g.rows * g.cols
}

/// The position of the selected crop, clamped to the catalog.
pub open spec fn selected_position(g: GameModel, crops: Seq<CropDefinition>) -> int {
    if g.selected_crop < crops.len() - 1 {
        g.selected_crop as int
    } else {
        crops.len() - 1
    }
}

/// The selected crop.
pub open spec fn selected_crop_of(g: GameModel, crops: Seq<CropDefinition>) -> CropDefinition {
    crops[selected_position(g, crops)]
}

/// Selecting the crop before the current one, wrapping to the last.
pub open spec fn select_previous_of(g: GameModel, crops: Seq<CropDefinition>) -> GameModel {
    GameModel {
        selected_crop: if g.selected_crop == 0 {
            (crops.len() - 1) as usize
        } else {
            (g.selected_crop - 1) as usize
        },
        ..g
    }
}

/// Selecting the crop after the current one, wrapping to the first.
pub open spec fn select_next_of(g: GameModel, crops: Seq<CropDefinition>) -> GameModel {
    GameModel { selected_crop: ((g.selected_crop + 1) % (crops.len() as int)) as usize, ..g }
}

/// A new farm's state.
pub open spec fn new_game(crops: Seq<CropDefinition>, now_utc: i64) -> GameModel {
    GameModel {
        coins: STARTING_COINS,
        run_earnings: 0,
        rebirth_tokens: 0,
        rebirth_count: 0,
        rows: STARTING_SIZE,
        cols: STARTING_SIZE,
        selected_crop: 0,
        tiles: Seq::new((STARTING_SIZE * STARTING_SIZE) as nat, |i: int| TileState::Untilled),
        seeds: Map::empty().insert(crops[0].id@, 3u32),
        produce: Map::empty(),
        upgrades: Map::empty(),
        last_seen_utc: now_utc,
    }
}

/// The price of a machine's next level: the base price times that level.
pub open spec fn upgrade_cost_of(g: GameModel, u: UpgradeDefinition) -> u64 {
    saturate(u.base_price * (upgrade_state_of(g.upgrades, u.id@).level + 1))
}

/// The price of one more row: 25 coins times the square of the rows beyond the first.
pub open spec fn row_cost_of(g: GameModel) -> int {
    25 * ((g.rows - 1) * (g.rows - 1))
}

/// The price of one more column.
pub open spec fn column_cost_of(g: GameModel) -> int {
    25 * ((g.cols - 1) * (g.cols - 1))
}

/// What a rebirth requires to have been earned: 2500 coins, doubled per earlier rebirth.
pub open spec fn rebirth_requirement_of(g: GameModel) -> u64 {
    saturate(2500 * saturate(two_pow(g.rebirth_count as nat) as int))
}

/// The drawing stage of a crop: 3 when ripe, 2 from 45%, 1 from 12%, else 0.
pub open spec fn growth_stage_of(progress_ms: u64, grow_seconds: u64) -> usize {
    let total = grow_seconds * 1000;
    if grow_seconds == 0 && progress_ms == 0 {
        0
    } else if progress_ms >= total {
        3
    } else if 100 * progress_ms >= 45 * total {
        2
    } else if 100 * progress_ms >= 12 * total {
        1
    } else {
        0
    }
}

impl GameState {
    /// A new farm: starting coins, a three by three field of untilled soil,
    /// and three seeds of the first crop.
    pub fn new(catalog: &CropCatalog, now_utc: i64) -> (res: Self)
        requires
            catalog.crops@.len() > 0,
        ensures
            res@ == new_game(catalog.crops@, now_utc),
    {
        let mut seeds = TextMap::new();
        seeds.insert(catalog.crops[0].id.clone(), 3);
        let mut tiles: Vec<TileState> = Vec::new();
        let mut i: u32 = 0;
        while i < STARTING_SIZE * STARTING_SIZE
            invariant
                i <= STARTING_SIZE * STARTING_SIZE,
                tiles@ == Seq::new(i as nat, |k: int| TileState::Untilled),
            decreases STARTING_SIZE * STARTING_SIZE - i,
        {
            tiles.push(TileState::Untilled);
            i = i + 1;
            assert(tiles@ =~= Seq::new(i as nat, |k: int| TileState::Untilled));
        }
        let res = GameState {
            coins: STARTING_COINS,
            run_earnings: 0,
            rebirth_tokens: 0,
            rebirth_count: 0,
            rows: STARTING_SIZE,
            cols: STARTING_SIZE,
            selected_crop: 0,
            tiles,
            seeds,
            produce: TextMap::new(),
            upgrades: TextMap::new(),
            last_seen_utc: now_utc,
        };
        assert(res@.seeds =~= new_game(catalog.crops@, now_utc).seeds);
        res
    }

    fn index(&self, row: u32, col: u32) -> (res: Option<usize>)
        requires
            index_fits(self@, row, col),
        ensures
            res matches Some(i) ==> tile_index(self@, row, col) == Some(i as int),
            res is None ==> tile_index(self@, row, col) is None,
    {
        if row < self.rows && col < self.cols {
            proof {
                assert(row * self.cols + col <= u32::MAX);
            }
            Some((row * self.cols + col) as usize)
        } else {
            None
        }
    }

    /// The tile at a row and column, if it lies on the farm.
    pub fn tile(&self, row: u32, col: u32) -> (res: Option<&TileState>)
        requires
            index_fits(self@, row, col),
        ensures
            res matches Some(t) ==> (tile_index(self@, row, col) matches Some(i) && i < self.tiles@.len()
                && *t == self.tiles@[i]),
            res is None ==> (tile_index(self@, row, col) matches Some(i) ==> i >= self.tiles@.len()),
    {
        match self.index(row, col) {
            Some(i) => {
                if i < self.tiles.len() {
                    Some(&self.tiles[i])
                } else {
                    None
                }
            },
            None => None,
        }
    }

    /// The selected crop, clamped to the catalog.
    pub fn selected_definition<'a>(&self, catalog: &'a CropCatalog) -> (res: &'a CropDefinition)
        requires
            catalog.crops@.len() > 0,
        ensures
            *res == selected_crop_of(self@, catalog.crops@),
    {
        let last = catalog.crops.len() - 1;
        let i = if self.selected_crop < last { self.selected_crop } else { last };
        &catalog.crops[i]
    }

    /// Selects the crop before the current one, wrapping to the last.
    pub fn select_previous_crop(&mut self, catalog: &CropCatalog)
        requires
            old(self).selected_crop == 0 ==> catalog.crops@.len() > 0,
        ensures
            final(self)@ == select_previous_of(old(self)@, catalog.crops@),
    {
        self.selected_crop = if self.selected_crop == 0 {
            catalog.crops.len() - 1
        } else {
            self.selected_crop - 1
        };
    }

    /// Selects the crop after the current one, wrapping to the first.
    pub fn select_next_crop(&mut self, catalog: &CropCatalog)
        requires
            catalog.crops@.len() > 0,
            old(self).selected_crop < usize::MAX,
        ensures
            final(self)@ == select_next_of(old(self)@, catalog.crops@),
    {
        self.selected_crop = (self.selected_crop + 1) % catalog.crops.len();
    }

    /// The level of a machine; zero when it was never bought.
    pub fn upgrade_level(&self, id: &str) -> (res: u32)
        ensures
            res == upgrade_state_of(self.upgrades@, id@).level,
    {
        match self.upgrades.get(id) {
            Some(state) => state.level,
            None => 0,
        }
    }

    /// The price of a machine's next level.
    pub fn upgrade_cost(&self, upgrade: &UpgradeDefinition) -> (res: u64)
        ensures
            res == upgrade_cost_of(self@, *upgrade),
    {
        saturating_mul(upgrade.base_price, self.upgrade_level(upgrade.id.as_str()) as u64 + 1)
    }

    /// The price of one more row.
    pub fn row_cost(&self) -> (res: u64)
        requires
            self.rows >= 1,
            row_cost_of(self@) <= u64::MAX,
        ensures
            res == row_cost_of(self@),
    {
        let r = (self.rows - 1) as u64;
        proof {
            assert(r * r <= u32::MAX * u32::MAX) by (nonlinear_arith)
                requires
                    r <= u32::MAX,
            ;
            assert(u32::MAX * u32::MAX <= u64::MAX) by (nonlinear_arith);
        }
        25 * (r * r)
    }

    /// The price of one more column.
    pub fn column_cost(&self) -> (res: u64)
        requires
            self.cols >= 1,
            column_cost_of(self@) <= u64::MAX,
        ensures
            res == column_cost_of(self@),
    {
        let c = (self.cols - 1) as u64;
        proof {
            assert(c * c <= u32::MAX * u32::MAX) by (nonlinear_arith)
                requires
                    c <= u32::MAX,
            ;
            assert(u32::MAX * u32::MAX <= u64::MAX) by (nonlinear_arith);
        }
        25 * (c * c)
    }

    /// What a rebirth requires to have been earned.
    pub fn rebirth_requirement(&self) -> (res: u64)
        ensures
            res == rebirth_requirement_of(self@),
    {
        saturating_mul(2_500, saturating_pow2(self.rebirth_count))
    }

    /// The drawing stage of a crop with this much growth.
    pub fn growth_stage(progress_ms: u64, grow_seconds: u64) -> (res: usize)
        ensures
            res == growth_stage_of(progress_ms, grow_seconds),
    {
        let total: u128 = grow_seconds as u128 * 1000;
        let progress: u128 = progress_ms as u128;
        if grow_seconds == 0 && progress_ms == 0 {
            0
        } else if progress >= total {
            3
        } else if 100 * progress >= 45 * total {
            2
        } else if 100 * progress >= 12 * total {
            1
        } else {
            0
        }
    }
}

// ---------------------------------------------------------------------------
// Working a tile

/// "<name> unlocks at $<amount>".
pub open spec fn unlock_message(name: Seq<char>, amount: u64) -> Seq<char> {
    name + " unlocks at $"@ + decimal(amount as nat)
}

/// Whole seconds a crop still needs, rounded up.
pub open spec fn remaining_seconds(progress_ms: u64, grow_seconds: u64) -> nat {
    ((grow_seconds * 1000 - progress_ms + 999) / 1000) as nat
}

/// Sowing the selected crop on tilled tile `i`.
pub open spec fn sow_step(g: GameModel, i: int, crops: Seq<CropDefinition>) -> (GameModel, Outcome) {
    let c = selected_crop_of(g, crops);
    let n = count_of(g.seeds, c.id@);
    if g.run_earnings < c.unlock_earnings {
        (g, unchanged_with(unlock_message(c.name@, c.unlock_earnings)))
    } else if n == 0 {
        (GameModel { seeds: g.seeds.insert(c.id@, 0), ..g }, unchanged_with("No "@ + c.name@ + " seeds"@))
    } else {
        (
            GameModel {
                seeds: g.seeds.insert(c.id@, (n - 1) as u32),
                tiles: g.tiles.update(i, TileState::Planted { crop_id: c.id, progress_ms: 0 }),
                ..g
            },
            changed_with("Sowed "@ + c.name@),
        )
    }
}

/// Harvesting the crop on tile `i`, when it is ripe.
pub open spec fn harvest_step(
    g: GameModel,
    i: int,
    crop_id: Seq<char>,
    progress_ms: u64,
    crops: Seq<CropDefinition>,
) -> (GameModel, Outcome) {
    match lookup_crop(crops, crop_id) {
        None => (g, unchanged_with("Unknown crop"@)),
        Some(c) => if progress_ms < c.grow_seconds * 1000 {
            (
                g,
                unchanged_with(
                    c.name@ + ": "@ + decimal(remaining_seconds(progress_ms, c.grow_seconds)) + "s remaining"@,
                ),
            )
        } else {
            (
                GameModel {
                    produce: g.produce.insert(crop_id, (count_of(g.produce, crop_id) + 1) as u32),
                    tiles: g.tiles.update(i, TileState::Tilled),
                    ..g
                },
                changed_with("Harvested "@ + c.name@),
            )
        },
    }
}

/// Working a tile: till untilled soil, sow tilled soil, harvest a ripe crop.
pub open spec fn use_tile_step(g: GameModel, row: u32, col: u32, crops: Seq<CropDefinition>) -> (GameModel, Outcome) {
    match tile_index(g, row, col) {
        None => (g, unchanged_with("Outside farm"@)),
        Some(i) => match g.tiles[i] {
            TileState::Untilled => (
                GameModel { tiles: g.tiles.update(i, TileState::Tilled), ..g },
                changed_with("Tilled soil"@),
            ),
            TileState::Tilled => sow_step(g, i, crops),
            TileState::Planted { crop_id, progress_ms } => harvest_step(g, i, crop_id@, progress_ms, crops),
        },
    }
}

/// Working a tile neither indexes past the field, nor needs a crop from an
/// empty catalog, nor overflows a produce count.
pub open spec fn use_tile_safe(g: GameModel, row: u32, col: u32, crops: Seq<CropDefinition>) -> bool {
    &&& index_fits(g, row, col)
    &&& match tile_index(g, row, col) {
        None => true,
        Some(i) => i < g.tiles.len() && match g.tiles[i] {
            TileState::Untilled => true,
            TileState::Tilled => crops.len() > 0,
            TileState::Planted { crop_id, progress_ms } => match lookup_crop(crops, crop_id@) {
                Some(c) => progress_ms >= c.grow_seconds * 1000 ==> count_of(g.produce, crop_id@) < u32::MAX,
                None => true,
            },
        },
    }
}

impl GameState {
    /// The number of seeds held of a crop.
    fn seed_count(&self, id: &str) -> (res: u32)
        ensures
            res == count_of(self.seeds@, id@),
    {
        match self.seeds.get(id) {
            Some(n) => n,
            None => 0,
        }
    }

    /// The number of produce held of a crop.
    fn produce_count(&self, id: &str) -> (res: u32)
        ensures
            res == count_of(self.produce@, id@),
    {
        match self.produce.get(id) {
            Some(n) => n,
            None => 0,
        }
    }

    /// Works the tile at a row and column: tills untilled soil, sows the
    /// selected crop on tilled soil, and harvests a ripe crop.
    pub fn use_tile(&mut self, row: u32, col: u32, catalog: &CropCatalog) -> (res: ActionResult)
        requires
            use_tile_safe(old(self)@, row, col, catalog.crops@),
        ensures
            (final(self)@, res@) == use_tile_step(old(self)@, row, col, catalog.crops@),
    {
        let index = match self.index(row, col) {
            Some(index) => index,
            None => {
                return ActionResult::Unchanged(owned("Outside farm"));
            },
        };
        match &self.tiles[index] {
            TileState::Untilled => {
                self.tiles.set(index, TileState::Tilled);
                ActionResult::Changed(owned("Tilled soil"))
            },
            TileState::Tilled => self.sow(index, catalog),
            TileState::Planted { crop_id, progress_ms } => {
                let crop_id = crop_id.clone();
                let progress_ms = *progress_ms;
                self.harvest(index, crop_id, progress_ms, catalog)
            },
        }
    }

    fn sow(&mut self, index: usize, catalog: &CropCatalog) -> (res: ActionResult)
        requires
            index < old(self).tiles@.len(),
            catalog.crops@.len() > 0,
        ensures
            (final(self)@, res@) == sow_step(old(self)@, index as int, catalog.crops@),
    {
        let crop = self.selected_definition(catalog);
        if self.run_earnings < crop.unlock_earnings {
            let mut message = crop.name.clone();
            message.append(" unlocks at $");
            push_decimal(&mut message, crop.unlock_earnings);
            return ActionResult::Unchanged(message);
        }
        let n = self.seed_count(crop.id.as_str());
        if n == 0 {
            self.seeds.insert(crop.id.clone(), 0);
            let mut message = owned("No ");
            message.append(crop.name.as_str());
            message.append(" seeds");
            return ActionResult::Unchanged(message);
        }
        self.seeds.insert(crop.id.clone(), n - 1);
        self.tiles.set(index, TileState::Planted { crop_id: crop.id.clone(), progress_ms: 0 });
        ActionResult::Changed(joined("Sowed ", crop.name.as_str()))
    }

    fn harvest(&mut self, index: usize, crop_id: String, progress_ms: u64, catalog: &CropCatalog) -> (res: ActionResult)
        requires
            index < old(self).tiles@.len(),
            lookup_crop(catalog.crops@, crop_id@) matches Some(c) ==> (progress_ms >= c.grow_seconds * 1000
                ==> count_of(old(self).produce@, crop_id@) < u32::MAX),
        ensures
            (final(self)@, res@) == harvest_step(old(self)@, index as int, crop_id@, progress_ms, catalog.crops@),
    {
        let crop = match catalog.get(crop_id.as_str()) {
            Some(crop) => crop,
            None => {
                return ActionResult::Unchanged(owned("Unknown crop"));
            },
        };
        let total: u128 = crop.grow_seconds as u128 * 1000;
        if (progress_ms as u128) < total {
            let remaining = ((total - progress_ms as u128 + 999) / 1000) as u64;
            let mut message = crop.name.clone();
            message.append(": ");
            push_decimal(&mut message, remaining);
            message.append("s remaining");
            return ActionResult::Unchanged(message);
        }
        let n = self.produce_count(crop_id.as_str());
        self.produce.insert(crop_id, n + 1);
        self.tiles.set(index, TileState::Tilled);
        ActionResult::Changed(joined("Harvested ", crop.name.as_str()))
    }
}

// ---------------------------------------------------------------------------
// Shopping

/// A farm that cannot earn again: the first crop is selected and no seed of
/// it is held, no catalog crop's produce is left to sell, and nothing grows.
/// Buying a seed then grants one of the first crop for free.
pub open spec fn stranded(g: GameModel, crops: Seq<CropDefinition>) -> bool {
    &&& selected_position(g, crops) == 0
    &&& count_of(g.seeds, selected_crop_of(g, crops).id@) == 0
    &&& forall|i: int| 0 <= i < crops.len() ==> count_of(g.produce, (#[trigger] crops[i]).id@) == 0
    &&& forall|i: int| 0 <= i < g.tiles.len() ==> !((#[trigger] g.tiles[i]) is Planted)
}

/// Buying one seed of the selected crop; a stranded farm gets one for free.
pub open spec fn buy_seed_step(g: GameModel, crops: Seq<CropDefinition>) -> (GameModel, Outcome) {
    let c = selected_crop_of(g, crops);
    if g.run_earnings < c.unlock_earnings {
        (g, unchanged_with(unlock_message(c.name@, c.unlock_earnings)))
    } else if g.coins < c.seed_price {
        if stranded(g, crops) {
            (
                GameModel { seeds: g.seeds.insert(c.id@, 1), ..g },
                changed_with("Emergency "@ + c.name@ + " seed"@),
            )
        } else {
            (g, unchanged_with("Not enough money"@))
        }
    } else {
        (
            GameModel {
                coins: (g.coins - c.seed_price) as u64,
                seeds: g.seeds.insert(c.id@, (count_of(g.seeds, c.id@) + 1) as u32),
                ..g
            },
            changed_with("Bought "@ + c.name@ + " seed"@),
        )
    }
}

/// Buying one seed neither needs a crop from an empty catalog nor overflows the seed count.
pub open spec fn buy_seed_safe(g: GameModel, crops: Seq<CropDefinition>) -> bool {
    &&& crops.len() > 0
    &&& (g.run_earnings >= selected_crop_of(g, crops).unlock_earnings && g.coins >= selected_crop_of(
        g,
        crops,
    ).seed_price ==> count_of(g.seeds, selected_crop_of(g, crops).id@) < u32::MAX)
}

/// Buying the next level of the machine at shop position `index`.
pub open spec fn buy_upgrade_step(g: GameModel, index: int, ups: Seq<UpgradeDefinition>) -> (GameModel, Outcome) {
    if index < 0 || index >= ups.len() {
        (g, unchanged_with("Unknown shop option"@))
    } else {
        let u = ups[index];
        let state = upgrade_state_of(g.upgrades, u.id@);
        let cost = upgrade_cost_of(g, u);
        if g.run_earnings < u.unlock_earnings {
            (g, unchanged_with(unlock_message(u.name@, u.unlock_earnings)))
        } else if g.coins < cost {
            (g, unchanged_with(u.name@ + " costs $"@ + decimal(cost as nat)))
        } else {
            (
                GameModel {
                    coins: (g.coins - cost) as u64,
                    upgrades: g.upgrades.insert(
                        u.id@,
                        UpgradeState { level: (state.level + 1) as u32, ..state },
                    ),
                    ..g
                },
                changed_with(u.name@ + " upgraded to level "@ + decimal((state.level + 1) as nat)),
            )
        }
    }
}

/// A machine level that is bought fits the level count.
pub open spec fn buy_upgrade_safe(g: GameModel, index: int, ups: Seq<UpgradeDefinition>) -> bool {
    0 <= index < ups.len() && g.run_earnings >= ups[index].unlock_earnings && g.coins >= upgrade_cost_of(
        g,
        ups[index],
    ) ==> upgrade_state_of(g.upgrades, ups[index].id@).level < u32::MAX
}

impl GameState {
    /// Whether the farm cannot earn again without a free seed.
    fn is_stranded(&self, catalog: &CropCatalog) -> (res: bool)
        requires
            catalog.crops@.len() > 0,
        ensures
            res == stranded(self@, catalog.crops@),
    {
        let last = catalog.crops.len() - 1;
        let position = if self.selected_crop < last { self.selected_crop } else { last };
        if position != 0 {
            return false;
        }
        if self.seed_count(catalog.crops[0].id.as_str()) != 0 {
            return false;
        }
        let n = catalog.crops.len();
        let mut i: usize = 0;
        while i < n
            invariant
                n == catalog.crops@.len(),
                i <= n,
                forall|j: int| 0 <= j < i ==> count_of(self.produce@, (#[trigger] catalog.crops@[j]).id@) == 0,
            decreases n - i,
        {
            if self.produce_count(catalog.crops[i].id.as_str()) != 0 {
                return false;
            }
            i = i + 1;
        }
        let m = self.tiles.len();
        let mut k: usize = 0;
        while k < m
            invariant
                m == self.tiles@.len(),
                k <= m,
                forall|j: int| 0 <= j < k ==> !((#[trigger] self.tiles@[j]) is Planted),
            decreases m - k,
        {
            match &self.tiles[k] {
                TileState::Planted { .. } => {
                    return false;
                },
                _ => {},
            }
            k = k + 1;
        }
        true
    }

    /// Buys one seed of the selected crop, once it is unlocked and affordable;
    /// a farm that cannot earn again gets a seed of the first crop for free.
    pub fn buy_selected_seed(&mut self, catalog: &CropCatalog) -> (res: ActionResult)
        requires
            buy_seed_safe(old(self)@, catalog.crops@),
        ensures
            (final(self)@, res@) == buy_seed_step(old(self)@, catalog.crops@),
    {
        let crop = self.selected_definition(catalog);
        if self.run_earnings < crop.unlock_earnings {
            let mut message = crop.name.clone();
            message.append(" unlocks at $");
            push_decimal(&mut message, crop.unlock_earnings);
            return ActionResult::Unchanged(message);
        }
        if self.coins < crop.seed_price {
            if self.is_stranded(catalog) {
                self.seeds.insert(crop.id.clone(), 1);
                let mut message = joined("Emergency ", crop.name.as_str());
                message.append(" seed");
                return ActionResult::Changed(message);
            }
            return ActionResult::Unchanged(owned("Not enough money"));
        }
        self.coins = self.coins - crop.seed_price;
        let n = self.seed_count(crop.id.as_str());
        self.seeds.insert(crop.id.clone(), n + 1);
        let mut message = joined("Bought ", crop.name.as_str());
        message.append(" seed");
        ActionResult::Changed(message)
    }

    /// Buys the next level of the machine at a shop position, once it is
    /// unlocked and affordable; machines have no level cap.
    pub fn buy_upgrade(&mut self, index: usize, catalog: &UpgradeCatalog) -> (res: ActionResult)
        requires
            buy_upgrade_safe(old(self)@, index as int, catalog.upgrades@),
        ensures
            (final(self)@, res@) == buy_upgrade_step(old(self)@, index as int, catalog.upgrades@),
    {
        if index >= catalog.upgrades.len() {
            return ActionResult::Unchanged(owned("Unknown shop option"));
        }
        let upgrade = &catalog.upgrades[index];
        let state = match self.upgrades.get(upgrade.id.as_str()) {
            Some(state) => state,
            None => UpgradeState { level: 0, elapsed_ms: 0 },
        };
        let level = state.level;
        if self.run_earnings < upgrade.unlock_earnings {
            let mut message = upgrade.name.clone();
            message.append(" unlocks at $");
            push_decimal(&mut message, upgrade.unlock_earnings);
            return ActionResult::Unchanged(message);
        }
        let cost = self.upgrade_cost(upgrade);
        if self.coins < cost {
            let mut message = joined(upgrade.name.as_str(), " costs $");
            push_decimal(&mut message, cost);
            return ActionResult::Unchanged(message);
        }
        self.coins = self.coins - cost;
        self.upgrades.insert(upgrade.id.clone(), UpgradeState { level: level + 1, ..state });
        let mut message = joined(upgrade.name.as_str(), " upgraded to level ");
        push_decimal(&mut message, (level + 1) as u64);
        ActionResult::Changed(message)
    }
}

// ---------------------------------------------------------------------------
// Selling

/// What a sale of `quantity` items at `price` brings with `tokens` rebirth
/// tokens: the base value, capped at `u64::MAX`, times `1 + tokens · 0.1`,
/// priced in double precision as `sale_amount` describes.
pub open spec fn sale_value(price: u64, quantity: u32, tokens: u32) -> u64 {
    sale_amount(saturate(price * quantity), tokens)
}

/// Selling the produce of the first `n` catalog crops, in catalog order:
/// the produce that is left and the coins earned.
pub open spec fn sell_through(
    produce: Map<Seq<char>, u32>,
    crops: Seq<CropDefinition>,
    n: nat,
    tokens: u32,
) -> (Map<Seq<char>, u32>, u64)
    decreases n,
{
    if n == 0 || n > crops.len() {
        (produce, 0)
    } else {
        let (p, total) = sell_through(produce, crops, (n - 1) as nat, tokens);
        let c = crops[n - 1];
        (p.remove(c.id@), saturate(total + sale_value(c.sell_price, count_of(p, c.id@), tokens)))
    }
}

/// Selling all produce of the catalog's crops.
pub open spec fn sell_step(g: GameModel, crops: Seq<CropDefinition>) -> (GameModel, Outcome) {
    let (p, total) = sell_through(g.produce, crops, crops.len(), g.rebirth_tokens);
    if total == 0 {
        (GameModel { produce: p, ..g }, unchanged_with("No produce to sell"@))
    } else {
        (
            GameModel {
                coins: saturate(g.coins + total),
                run_earnings: saturate(g.run_earnings + total),
                produce: p,
                ..g
            },
            changed_with("Sold produce for $"@ + decimal(total as nat)),
        )
    }
}

impl GameState {
    /// Sells all produce of the catalog's crops; each rebirth token adds a
    /// tenth to the price.
    pub fn sell_all(&mut self, catalog: &CropCatalog) -> (res: ActionResult)
        ensures
            (final(self)@, res@) == sell_step(old(self)@, catalog.crops@),
    {
        let ghost g = self@;
        let tokens = self.rebirth_tokens;
        let n = catalog.crops.len();
        let mut total: u64 = 0;
        let mut i: usize = 0;
        while i < n
            invariant
                n == catalog.crops@.len(),
                i <= n,
                tokens == g.rebirth_tokens,
                (self.produce@, total) == sell_through(g.produce, catalog.crops@, i as nat, tokens),
                self@ == (GameModel { produce: self.produce@, ..g }),
            decreases n - i,
        {
            let crop = &catalog.crops[i];
            let quantity = match self.produce.remove(crop.id.as_str()) {
                Some(q) => q,
                None => 0,
            };
            let base = saturating_mul(crop.sell_price, quantity as u64);
            let value = sale_amount_of(base, tokens);
            total = total.saturating_add(value);
            i = i + 1;
        }
        if total == 0 {
            return ActionResult::Unchanged(owned("No produce to sell"));
        }
        self.coins = self.coins.saturating_add(total);
        self.run_earnings = self.run_earnings.saturating_add(total);
        let mut message = owned("Sold produce for $");
        push_decimal(&mut message, total);
        ActionResult::Changed(message)
    }
}

// ---------------------------------------------------------------------------
// Land

/// The tiles after a column is added: each row of `cols` tiles, the last one
/// possibly shorter, gets an untilled tile at its end.
pub open spec fn widen(tiles: Seq<TileState>, cols: nat) -> Seq<TileState>
    decreases tiles.len(),
{
    if cols == 0 || tiles.len() == 0 {
        tiles
    } else if tiles.len() <= cols {
        tiles.push(TileState::Untilled)
    } else {
        tiles.take(cols as int).push(TileState::Untilled) + widen(tiles.skip(cols as int), cols)
    }
}

/// Buying one more row of untilled soil.
pub open spec fn buy_row_step(g: GameModel) -> (GameModel, Outcome) {
    let cost = row_cost_of(g);
    if g.coins < cost {
        (g, unchanged_with("Row costs $"@ + decimal(cost as nat)))
    } else {
        (
            GameModel {
                coins: (g.coins - cost) as u64,
                tiles: g.tiles + Seq::new(g.cols as nat, |i: int| TileState::Untilled),
                rows: (g.rows + 1) as u32,
                ..g
            },
            changed_with("Bought row for $"@ + decimal(cost as nat)),
        )
    }
}

/// Buying one more column of untilled soil.
pub open spec fn buy_column_step(g: GameModel) -> (GameModel, Outcome) {
    let cost = column_cost_of(g);
    if g.coins < cost {
        (g, unchanged_with("Column costs $"@ + decimal(cost as nat)))
    } else {
        (
            GameModel {
                coins: (g.coins - cost) as u64,
                tiles: widen(g.tiles, g.cols as nat),
                cols: (g.cols + 1) as u32,
                ..g
            },
            changed_with("Bought column for $"@ + decimal(cost as nat)),
        )
    }
}

/// The row price is defined, and a bought row fits the row count.
pub open spec fn buy_row_safe(g: GameModel) -> bool {
    &&& g.rows >= 1
    &&& row_cost_of(g) <= u64::MAX
    &&& g.coins >= row_cost_of(g) ==> g.rows < u32::MAX
}

/// The column price is defined, and the widened field's size fits.
pub open spec fn buy_column_safe(g: GameModel) -> bool {
    &&& g.cols >= 1
    &&& column_cost_of(g) <= u64::MAX
    &&& g.coins >= column_cost_of(g) ==> g.cols < u32::MAX && g.rows * (g.cols + 1) <= u32::MAX
}

/// A copy of a tile.
pub fn copy_tile(tile: &TileState) -> (res: TileState)
    ensures
        res == *tile,
{
    match tile {
        TileState::Untilled => TileState::Untilled,
        TileState::Tilled => TileState::Tilled,
        TileState::Planted { crop_id, progress_ms } => TileState::Planted {
            crop_id: crop_id.clone(),
            progress_ms: *progress_ms,
        },
    }
}

proof fn lemma_widen_chunk(t: Seq<TileState>, cols: int, k: int)
    requires
        cols > 0,
        k >= 0,
        k * cols < t.len(),
    ensures
        widen(t.take(if (k + 1) * cols <= t.len() { (k + 1) * cols } else { t.len() as int }), cols as nat)
            == widen(t.take(k * cols), cols as nat) + t.subrange(
            k * cols,
            if (k + 1) * cols <= t.len() { (k + 1) * cols } else { t.len() as int },
        ).push(TileState::Untilled),
    decreases k,
{
    let c = cols as nat;
    let end: int = if (k + 1) * cols <= t.len() { (k + 1) * cols } else { t.len() as int };
    assert((k + 1) * cols == k * cols + cols) by (nonlinear_arith);
    if k == 0 {
        assert(0 * cols == 0);
        assert(t.take(0) =~= Seq::<TileState>::empty());
        assert(t.take(end).len() == end);
        assert(t.take(end) =~= t.subrange(0, end));
        assert(widen(t.take(end), c) =~= widen(t.take(k * cols), c) + t.subrange(k * cols, end).push(
            TileState::Untilled,
        ));
    } else {
        let u = t.skip(cols);
        assert(k * cols == (k - 1) * cols + cols) by (nonlinear_arith);
        assert((k - 1) * cols >= 0) by (nonlinear_arith)
            requires
                k >= 1,
                cols > 0,
        ;
        lemma_widen_chunk(u, cols, k - 1);
        let uend: int = if k * cols <= u.len() { k * cols } else { u.len() as int };
        assert(uend == end - cols);
        assert(t.take(end).take(cols) =~= t.take(cols));
        assert(t.take(end).skip(cols) =~= u.take(uend));
        assert(k * cols >= cols) by (nonlinear_arith)
            requires
                k >= 1,
                cols > 0,
        ;
        assert(t.take(k * cols).skip(cols) =~= u.take((k - 1) * cols));
        assert(u.subrange((k - 1) * cols, uend) =~= t.subrange(k * cols, end));
        if k * cols == cols {
            assert((k - 1) * cols == 0);
            assert(u.take(0) =~= Seq::<TileState>::empty());
            assert(t.take(k * cols) =~= t.take(cols));
            assert(t.take(k * cols).take(cols) =~= t.take(cols));
        } else {
            assert(t.take(k * cols).take(cols) =~= t.take(cols));
        }
        assert(widen(t.take(end), c) =~= widen(t.take(k * cols), c) + t.subrange(k * cols, end).push(
            TileState::Untilled,
        ));
    }
}

impl GameState {
    /// Buys one more row of untilled soil.
    pub fn buy_row(&mut self) -> (res: ActionResult)
        requires
            buy_row_safe(old(self)@),
        ensures
            (final(self)@, res@) == buy_row_step(old(self)@),
    {
        let cost = self.row_cost();
        if self.coins < cost {
            let mut message = owned("Row costs $");
            push_decimal(&mut message, cost);
            return ActionResult::Unchanged(message);
        }
        self.coins = self.coins - cost;
        let ghost before = self.tiles@;
        let ghost g = self@;
        let cols = self.cols;
        let mut i: u32 = 0;
        while i < cols
            invariant
                i <= cols,
                self@ == (GameModel { tiles: self.tiles@, ..g }),
                self.tiles@ == before + Seq::new(i as nat, |k: int| TileState::Untilled),
            decreases cols - i,
        {
            self.tiles.push(TileState::Untilled);
            i = i + 1;
            assert(self.tiles@ =~= before + Seq::new(i as nat, |k: int| TileState::Untilled));
        }
        self.rows = self.rows + 1;
        let mut message = owned("Bought row for $");
        push_decimal(&mut message, cost);
        ActionResult::Changed(message)
    }

    /// Buys one more column of untilled soil: each row gets a tile at its end.
    pub fn buy_column(&mut self) -> (res: ActionResult)
        requires
            buy_column_safe(old(self)@),
        ensures
            (final(self)@, res@) == buy_column_step(old(self)@),
    {
        let cost = self.column_cost();
        if self.coins < cost {
            let mut message = owned("Column costs $");
            push_decimal(&mut message, cost);
            return ActionResult::Unchanged(message);
        }
        self.coins = self.coins - cost;
        let cols = self.cols as usize;
        let n = self.tiles.len();
        let ghost t = self.tiles@;
        let mut expanded: Vec<TileState> = Vec::with_capacity((self.rows * (self.cols + 1)) as usize);
        let mut start: usize = 0;
        let ghost mut k: int = 0;
        assert(t.take(0) =~= Seq::<TileState>::empty());
        while start < n
            invariant
                cols == self.cols,
                cols > 0,
                n == t.len(),
                self.tiles@ == t,
                k >= 0,
                start == k * cols || start == n,
                start <= n,
                expanded@ == widen(t.take(start as int), cols as nat),
            decreases n - start,
        {
            let end = if cols <= n - start { start + cols } else { n };
            proof {
                lemma_widen_chunk(t, cols as int, k);
                assert((k + 1) * cols == k * cols + cols) by (nonlinear_arith);
            }
            let ghost prefix = expanded@;
            let mut j = start;
            while j < end
                invariant
                    start <= j <= end,
                    end <= n,
                    n == t.len(),
                    self.tiles@ == t,
                    expanded@ == prefix + t.subrange(start as int, j as int),
                decreases end - j,
            {
                expanded.push(copy_tile(&self.tiles[j]));
                j = j + 1;
                assert(expanded@ =~= prefix + t.subrange(start as int, j as int));
            }
            expanded.push(TileState::Untilled);
            start = end;
            proof {
                k = k + 1;
            }
        }
        proof {
            assert(t.take(start as int) =~= t);
        }
        self.tiles = expanded;
        self.cols = self.cols + 1;
        let mut message = owned("Bought column for $");
        push_decimal(&mut message, cost);
        ActionResult::Changed(message)
    }
}

// ---------------------------------------------------------------------------
// Rebirth and growth

/// Starting over with a new farm, keeping one more permanent token.
pub open spec fn rebirth_step(g: GameModel, crops: Seq<CropDefinition>) -> (GameModel, Outcome) {
    let requirement = rebirth_requirement_of(g);
    if g.run_earnings < requirement {
        (g, unchanged_with("Rebirth requires $"@ + decimal(requirement as nat) + " earned"@))
    } else {
        (
            GameModel {
                rebirth_count: (g.rebirth_count + 1) as u32,
                rebirth_tokens: (g.rebirth_tokens + 1) as u32,
                ..new_game(crops, g.last_seen_utc)
            },
            changed_with(
                "Rebirth "@ + decimal((g.rebirth_count + 1) as nat) + ": +1 permanent token"@,
            ),
        )
    }
}

/// A rebirth that happens has a first crop to start with and counters that fit.
pub open spec fn rebirth_safe(g: GameModel, crops: Seq<CropDefinition>) -> bool {
    g.run_earnings >= rebirth_requirement_of(g) ==> crops.len() > 0 && g.rebirth_count < u32::MAX
        && g.rebirth_tokens < u32::MAX
}

/// A tile after `growth` milliseconds of growth.
pub open spec fn grown(tile: TileState, growth: u64) -> TileState {
    match tile {
        TileState::Planted { crop_id, progress_ms } => TileState::Planted {
            crop_id,
            progress_ms: saturate(progress_ms + growth),
        },
        _ => tile,
    }
}

/// The growth of `elapsed_ms` at a multiplier in basis points, in milliseconds.
pub open spec fn growth_of(elapsed_ms: u64, multiplier: u64) -> u64 {
    saturate(elapsed_ms * multiplier / 10_000)
}

/// Letting time pass: every planted crop grows by the same amount.
pub open spec fn apply_elapsed_step(g: GameModel, elapsed_ms: u64, multiplier: u64) -> GameModel {
    if elapsed_ms == 0 {
        g
    } else {
        GameModel { tiles: g.tiles.map_values(|t: TileState| grown(t, growth_of(elapsed_ms, multiplier))), ..g }
    }
}

/// The levels held of the growth-boosting machines among the first `n` catalog entries.
pub open spec fn growth_levels(g: GameModel, ups: Seq<UpgradeDefinition>, n: nat) -> nat
    decreases n,
{
    if n == 0 || n > ups.len() {
        0
    } else {
        growth_levels(g, ups, (n - 1) as nat) + if ups[n - 1].kind == UpgradeKind::GrowthBoost {
            upgrade_state_of(g.upgrades, ups[n - 1].id@).level as nat
        } else {
            0nat
        }
    }
}

/// The growth multiplier of the machinery, in basis points: 1.15 per boost level.
pub open spec fn growth_multiplier_of(g: GameModel, ups: Seq<UpgradeDefinition>) -> u64 {
    saturate((10_000 + 1_500 * growth_levels(g, ups, ups.len())) as int)
}

/// The product of two multipliers in basis points, rounded down.
pub open spec fn combined_multiplier_of(a: u64, b: u64) -> u64 {
    saturate(a * b / 10_000)
}

/// The product of two multipliers in basis points, rounded down.
pub fn combine_multipliers(a: u64, b: u64) -> (res: u64)
    ensures
        res == combined_multiplier_of(a, b),
{
    proof {
        assert(a * b <= u64::MAX * u64::MAX) by (nonlinear_arith)
            requires
                a <= u64::MAX,
                b <= u64::MAX,
        ;
        assert(u64::MAX * u64::MAX <= u128::MAX) by (nonlinear_arith);
    }
    let p: u128 = a as u128 * b as u128 / 10_000;
    if p > u64::MAX as u128 {
        u64::MAX
    } else {
        p as u64
    }
}

impl GameState {
    /// Starts over with a new farm once enough was earned; the rebirth count
    /// and the permanent tokens go up by one.
    pub fn rebirth(&mut self, catalog: &CropCatalog) -> (res: ActionResult)
        requires
            rebirth_safe(old(self)@, catalog.crops@),
        ensures
            (final(self)@, res@) == rebirth_step(old(self)@, catalog.crops@),
    {
        let requirement = self.rebirth_requirement();
        if self.run_earnings < requirement {
            let mut message = owned("Rebirth requires $");
            push_decimal(&mut message, requirement);
            message.append(" earned");
            return ActionResult::Unchanged(message);
        }
        let now = self.last_seen_utc;
        let count = self.rebirth_count + 1;
        let tokens = self.rebirth_tokens + 1;
        *self = GameState::new(catalog, now);
        self.rebirth_count = count;
        self.rebirth_tokens = tokens;
        let mut message = owned("Rebirth ");
        push_decimal(&mut message, count as u64);
        message.append(": +1 permanent token");
        ActionResult::Changed(message)
    }

    /// Lets `elapsed_ms` milliseconds pass at a growth multiplier in basis points.
    pub fn apply_elapsed(&mut self, elapsed_ms: u64, multiplier: u64)
        ensures
            final(self)@ == apply_elapsed_step(old(self)@, elapsed_ms, multiplier),
    {
        if elapsed_ms == 0 {
            return;
        }
        proof {
            assert(elapsed_ms * multiplier <= u64::MAX * u64::MAX) by (nonlinear_arith)
                requires
                    elapsed_ms <= u64::MAX,
                    multiplier <= u64::MAX,
            ;
            assert(u64::MAX * u64::MAX <= u128::MAX) by (nonlinear_arith);
        }
        let scaled: u128 = elapsed_ms as u128 * multiplier as u128 / 10_000;
        let growth: u64 = if scaled > u64::MAX as u128 { u64::MAX } else { scaled as u64 };
        let ghost g = self@;
        let ghost target = g.tiles.map_values(|t: TileState| grown(t, growth));
        let n = self.tiles.len();
        let mut i: usize = 0;
        while i < n
            invariant
                n == g.tiles.len(),
                i <= n,
                growth == growth_of(elapsed_ms, multiplier),
                target == g.tiles.map_values(|t: TileState| grown(t, growth)),
                self@ == (GameModel { tiles: self.tiles@, ..g }),
                self.tiles@.len() == n,
                forall|j: int| 0 <= j < i ==> self.tiles@[j] == target[j],
                forall|j: int| i <= j < n ==> self.tiles@[j] == g.tiles[j],
            decreases n - i,
        {
            let next = match &self.tiles[i] {
                TileState::Planted { crop_id, progress_ms } => Some(
                    TileState::Planted {
                        crop_id: crop_id.clone(),
                        progress_ms: progress_ms.saturating_add(growth),
                    },
                ),
                _ => None,
            };
            match next {
                Some(tile) => {
                    self.tiles.set(i, tile);
                },
                None => {},
            }
            i = i + 1;
        }
        assert(self.tiles@ =~= target);
    }

    /// The growth multiplier of the machinery, in basis points.
    pub fn growth_upgrade_multiplier(&self, catalog: &UpgradeCatalog) -> (res: u64)
        ensures
            res == growth_multiplier_of(self@, catalog.upgrades@),
    {
        let n = catalog.upgrades.len();
        let mut levels: u128 = 0;
        let mut i: usize = 0;
        while i < n
            invariant
                n == catalog.upgrades@.len(),
                i <= n,
                levels == growth_levels(self@, catalog.upgrades@, i as nat),
                levels <= i * (u32::MAX as int),
            decreases n - i,
        {
            let upgrade = &catalog.upgrades[i];
            if upgrade.kind == UpgradeKind::GrowthBoost {
                levels = levels + self.upgrade_level(upgrade.id.as_str()) as u128;
            }
            i = i + 1;
        }
        proof {
            assert(levels <= n * (u32::MAX as int));
            assert(n * (u32::MAX as int) <= u64::MAX * (u32::MAX as int)) by (nonlinear_arith)
                requires
                    n <= u64::MAX,
            ;
            assert(u64::MAX * (u32::MAX as int) * 1500 + 10_000 <= u128::MAX) by (nonlinear_arith);
        }
        let multiplier: u128 = 10_000 + 1_500 * levels;
        if multiplier > u64::MAX as u128 {
            u64::MAX
        } else {
            multiplier as u64
        }
    }
}

// ---------------------------------------------------------------------------
// Checking a farm against the catalogs

/// A refused farm, with texts by their characters.
pub enum GameErrorView {
    InvalidDimensions,
    UnknownCrop(Seq<char>),
    InvalidSelection,
    UnknownUpgrade(Seq<char>),
}

impl View for GameError {
    type V = GameErrorView;

    open spec fn view(&self) -> GameErrorView {
        match self {
            GameError::InvalidDimensions => GameErrorView::InvalidDimensions,
            GameError::UnknownCrop(id) => GameErrorView::UnknownCrop(id@),
            GameError::InvalidSelection => GameErrorView::InvalidSelection,
            GameError::UnknownUpgrade(id) => GameErrorView::UnknownUpgrade(id@),
        }
    }
}

/// A check's verdict, with texts by their characters.
pub open spec fn check_view(r: Result<(), GameError>) -> Result<(), GameErrorView> {
    match r {
        Ok(()) => Ok(()),
        Err(e) => Err(e@),
    }
}

/// A planted tile names a crop of the catalog.
pub open spec fn tile_known(t: TileState, crops: Seq<CropDefinition>) -> bool {
    match t {
        TileState::Planted { crop_id, .. } => lookup_crop(crops, crop_id@) is Some,
        _ => true,
    }
}

/// Tile `i` is the first that names an unknown crop.
pub open spec fn is_first_unknown_tile(tiles: Seq<TileState>, crops: Seq<CropDefinition>, i: int) -> bool {
    0 <= i < tiles.len() && !tile_known(tiles[i], crops) && forall|j: int|
        0 <= j < i ==> tile_known(#[trigger] tiles[j], crops)
}

/// A machine id held that the catalog does not know.
pub open spec fn unknown_key(m: Map<Seq<char>, UpgradeState>, ups: Seq<UpgradeDefinition>, k: Seq<char>) -> bool {
    m.contains_key(k) && lookup_upgrade(ups, k) is None
}

/// `k` is the unknown machine id that comes first in text order.
pub open spec fn is_least_unknown_key(m: Map<Seq<char>, UpgradeState>, ups: Seq<UpgradeDefinition>, k: Seq<char>) -> bool {
    unknown_key(m, ups, k) && forall|j: Seq<char>| #[trigger] unknown_key(m, ups, j) ==> !text_less(j, k)
}

/// The verdict on a farm: the tiles must fill the field, the selection must
/// be a catalog crop, the first tile that names an unknown crop is refused,
/// and then the unknown machine id that comes first in text order.
pub open spec fn check_game(g: GameModel, crops: Seq<CropDefinition>, ups: Seq<UpgradeDefinition>) -> Result<(), GameErrorView> {
    if !dims_match(g) {
        Err(GameErrorView::InvalidDimensions)
    } else if g.selected_crop >= crops.len() {
        Err(GameErrorView::InvalidSelection)
    } else if exists|i: int| is_first_unknown_tile(g.tiles, crops, i) {
        Err(GameErrorView::UnknownCrop(planted_id(g.tiles[choose|i: int| is_first_unknown_tile(g.tiles, crops, i)])))
    } else if exists|k: Seq<char>| is_least_unknown_key(g.upgrades, ups, k) {
        Err(GameErrorView::UnknownUpgrade(choose|k: Seq<char>| is_least_unknown_key(g.upgrades, ups, k)))
    } else {
        Ok(())
    }
}

proof fn lemma_least_unknown_unique(m: Map<Seq<char>, UpgradeState>, ups: Seq<UpgradeDefinition>, k: Seq<char>)
    requires
        is_least_unknown_key(m, ups, k),
    ensures
        (choose|j: Seq<char>| is_least_unknown_key(m, ups, j)) == k,
{
    let j = choose|j: Seq<char>| is_least_unknown_key(m, ups, j);
    assert(is_least_unknown_key(m, ups, j));
    if j != k {
        lemma_text_less_total(j, k);
        assert(unknown_key(m, ups, j));
        assert(unknown_key(m, ups, k));
    }
}

impl GameState {
    /// Checks a farm against the catalogs: the tiles fill the field, the
    /// selection is a catalog crop, every planted crop and every machine held
    /// is in its catalog. The first problem found decides the error.
    pub fn validate(&self, catalog: &CropCatalog, upgrade_catalog: &UpgradeCatalog) -> (res: Result<(), GameError>)
        ensures
            check_view(res) == check_game(self@, catalog.crops@, upgrade_catalog.upgrades@),
            res matches Err(GameError::UnknownCrop(id)) ==> exists|i: int|
                is_first_unknown_tile(self.tiles@, catalog.crops@, i) && (self.tiles@[i] matches TileState::Planted {
                crop_id,
                ..
            } && crop_id == id),
    {
        proof {
            assert(self.rows * self.cols <= u32::MAX * u32::MAX) by (nonlinear_arith)
                requires
                    self.rows <= u32::MAX,
                    self.cols <= u32::MAX,
            ;
        }
        if self.tiles.len() as u64 != self.rows as u64 * self.cols as u64 {
            return Err(GameError::InvalidDimensions);
        }
        if self.selected_crop >= catalog.crops.len() {
            return Err(GameError::InvalidSelection);
        }
        let n = self.tiles.len();
        let mut i: usize = 0;
        while i < n
            invariant
                n == self.tiles@.len(),
                i <= n,
                dims_match(self@),
                self.selected_crop < catalog.crops@.len(),
                forall|j: int| 0 <= j < i ==> tile_known(#[trigger] self.tiles@[j], catalog.crops@),
            decreases n - i,
        {
            match &self.tiles[i] {
                TileState::Planted { crop_id, .. } => {
                    if catalog.get(crop_id.as_str()).is_none() {
                        proof {
                            let tiles = self.tiles@;
                            assert(is_first_unknown_tile(tiles, catalog.crops@, i as int));
                            let k = choose|k: int| is_first_unknown_tile(tiles, catalog.crops@, k);
                            if k < i {
                                assert(tile_known(tiles[k], catalog.crops@));
                            } else if k > i {
                                assert(tile_known(tiles[i as int], catalog.crops@));
                            }
                        }
                        return Err(GameError::UnknownCrop(crop_id.clone()));
                    }
                },
                _ => {},
            }
            i = i + 1;
        }
        let m = self.upgrades.len();
        let ghost pairs = self.upgrades.pairs();
        let ghost ups = upgrade_catalog.upgrades@;
        proof {
            crate::keyed::lemma_pairs_view(&self.upgrades);
        }
        let mut k: usize = 0;
        while k < m
            invariant
                m == pairs.len(),
                pairs == self.upgrades.pairs(),
                sorted_pairs(pairs),
                self.upgrades@ == pairs_map(pairs),
                ups == upgrade_catalog.upgrades@,
                k <= m,
                dims_match(self@),
                self.selected_crop < catalog.crops@.len(),
                forall|j: int| 0 <= j < self.tiles@.len() ==> tile_known(#[trigger] self.tiles@[j], catalog.crops@),
                forall|j: int| 0 <= j < k ==> (#[trigger] lookup_upgrade(ups, pairs[j].0)) is Some,
            decreases m - k,
        {
            let key = self.upgrades.key_at(k);
            if upgrade_catalog.get(key.as_str()).is_none() {
                proof {
                    let mm = self.upgrades@;
                    lemma_pairs_map_at(pairs, k as int);
                    assert forall|j: Seq<char>| #[trigger] unknown_key(mm, ups, j) implies !text_less(j, key@) by {
                        let x = choose|x: int| 0 <= x < pairs.len() && #[trigger] pairs[x].0 == j;
                        if x < k {
                            assert(lookup_upgrade(ups, pairs[x].0) is Some);
                        } else if x > k {
                            assert(text_less(pairs[k as int].0, pairs[x].0));
                            if text_less(j, key@) {
                                lemma_text_less_transitive(j, key@, j);
                                lemma_text_less_irreflexive(j);
                            }
                        } else {
                            lemma_text_less_irreflexive(j);
                        }
                    }
                    assert(is_least_unknown_key(mm, ups, key@));
                    lemma_least_unknown_unique(mm, ups, key@);
                    assert(!exists|x: int| is_first_unknown_tile(self.tiles@, catalog.crops@, x));
                    assert(self@.upgrades == mm);
                    assert(exists|x: Seq<char>| is_least_unknown_key(self@.upgrades, ups, x));
                    assert(check_game(self@, catalog.crops@, ups) == Err::<(), GameErrorView>(GameErrorView::UnknownUpgrade(key@)));
                }
                return Err(GameError::UnknownUpgrade(key.clone()));
            }
            k = k + 1;
        }
        proof {
            let mm = self.upgrades@;
            assert(!exists|x: int| is_first_unknown_tile(self.tiles@, catalog.crops@, x));
            assert forall|j: Seq<char>| !is_least_unknown_key(mm, ups, j) by {
                if unknown_key(mm, ups, j) {
                    let x = choose|x: int| 0 <= x < pairs.len() && #[trigger] pairs[x].0 == j;
                    assert(lookup_upgrade(ups, pairs[x].0) is Some);
                }
            }
        }
        Ok(())
    }
}

// ---------------------------------------------------------------------------
// Machinery

/// `i` is the first tile that satisfies `p`.
pub open spec fn is_first_tile(tiles: Seq<TileState>, p: spec_fn(TileState) -> bool, i: int) -> bool {
    0 <= i < tiles.len() && p(tiles[i]) && forall|j: int| 0 <= j < i ==> !p(#[trigger] tiles[j])
}

/// The first tile that satisfies `p`, if any.
pub open spec fn first_tile(tiles: Seq<TileState>, p: spec_fn(TileState) -> bool) -> Option<int> {
    if exists|i: int| is_first_tile(tiles, p, i) {
        Some(choose|i: int| is_first_tile(tiles, p, i))
    } else {
        None
    }
}

pub proof fn lemma_first_tile_found(tiles: Seq<TileState>, p: spec_fn(TileState) -> bool, i: int)
    requires
        is_first_tile(tiles, p, i),
    ensures
        first_tile(tiles, p) == Some(i),
{
    let k = choose|k: int| is_first_tile(tiles, p, k);
    if k < i {
        assert(!p(tiles[k]));
    } else if k > i {
        assert(!p(tiles[i]));
    }
}

pub proof fn lemma_first_tile_none(tiles: Seq<TileState>, p: spec_fn(TileState) -> bool)
    requires
        forall|j: int| 0 <= j < tiles.len() ==> !p(#[trigger] tiles[j]),
    ensures
        first_tile(tiles, p) is None,
{
}

pub open spec fn is_untilled(t: TileState) -> bool {
    t == TileState::Untilled
}

pub open spec fn is_tilled(t: TileState) -> bool {
    t == TileState::Tilled
}

/// A ripe tile grows a catalog crop for at least the crop's growing time.
pub open spec fn is_ripe(t: TileState, crops: Seq<CropDefinition>) -> bool {
    match t {
        TileState::Planted { crop_id, progress_ms } => match lookup_crop(crops, crop_id@) {
            Some(c) => progress_ms >= c.grow_seconds * 1000,
            None => false,
        },
        _ => false,
    }
}

pub open spec fn untilled_pred() -> spec_fn(TileState) -> bool {
    |t: TileState| is_untilled(t)
}

pub open spec fn tilled_pred() -> spec_fn(TileState) -> bool {
    |t: TileState| is_tilled(t)
}

pub open spec fn ripe_pred(crops: Seq<CropDefinition>) -> spec_fn(TileState) -> bool {
    |t: TileState| is_ripe(t, crops)
}

/// The crop id of a planted tile.
pub open spec fn planted_id(t: TileState) -> Seq<char> {
    match t {
        TileState::Planted { crop_id, .. } => crop_id@,
        _ => Seq::empty(),
    }
}

/// One run of a machine: the state after it and its message, or no message
/// when the machine found nothing to do.
pub open spec fn automation_step(g: GameModel, kind: UpgradeKind, crops: Seq<CropDefinition>) -> (GameModel, Option<Seq<char>>) {
    match kind {
        UpgradeKind::AutoTill => match first_tile(g.tiles, untilled_pred()) {
            None => (g, None),
            Some(i) => (
                GameModel { tiles: g.tiles.update(i, TileState::Tilled), ..g },
                Some("Cultivator tilled soil"@),
            ),
        },
        UpgradeKind::AutoSow => {
            let c = selected_crop_of(g, crops);
            let n = count_of(g.seeds, c.id@);
            if g.run_earnings < c.unlock_earnings || n == 0 {
                (g, None)
            } else {
                match first_tile(g.tiles, tilled_pred()) {
                    None => (g, None),
                    Some(i) => (
                        GameModel {
                            seeds: g.seeds.insert(c.id@, (n - 1) as u32),
                            tiles: g.tiles.update(i, TileState::Planted { crop_id: c.id, progress_ms: 0 }),
                            ..g
                        },
                        Some("Seed drill sowed "@ + c.name@),
                    ),
                }
            }
        },
        UpgradeKind::AutoHarvest => match first_tile(g.tiles, ripe_pred(crops)) {
            None => (g, None),
            Some(i) => {
                let id = planted_id(g.tiles[i]);
                (
                    GameModel {
                        produce: g.produce.insert(id, (count_of(g.produce, id) + 1) as u32),
                        tiles: g.tiles.update(i, TileState::Tilled),
                        ..g
                    },
                    Some("Harvester collected "@ + lookup_crop(crops, id).unwrap().name@),
                )
            },
        },
        UpgradeKind::AutoSell => {
            let (g1, outcome) = sell_step(g, crops);
            if outcome.changed {
                (g1, Some("Market stall: "@ + outcome.message))
            } else {
                (g1, None)
            }
        },
        UpgradeKind::GrowthBoost => (g, None),
    }
}

/// One run of a machine needs a selected crop to sow and must not overflow a produce count.
pub open spec fn automation_safe(g: GameModel, kind: UpgradeKind, crops: Seq<CropDefinition>) -> bool {
    &&& kind == UpgradeKind::AutoSow ==> crops.len() > 0
    &&& kind == UpgradeKind::AutoHarvest ==> (first_tile(g.tiles, ripe_pred(crops)) matches Some(i)
        ==> count_of(g.produce, planted_id(g.tiles[i])) < u32::MAX)
}

/// Up to `n` runs of a machine, stopping at the first run that finds nothing to do.
pub open spec fn run_cycles(g: GameModel, kind: UpgradeKind, crops: Seq<CropDefinition>, n: nat) -> (GameModel, Seq<Seq<char>>)
    decreases n,
{
    if n == 0 {
        (g, Seq::empty())
    } else {
        let (g1, message) = automation_step(g, kind, crops);
        match message {
            None => (g1, Seq::empty()),
            Some(m) => {
                let (g2, rest) = run_cycles(g1, kind, crops, (n - 1) as nat);
                (g2, seq![m] + rest)
            },
        }
    }
}

/// Every run among up to `n` is safe.
pub open spec fn run_cycles_safe(g: GameModel, kind: UpgradeKind, crops: Seq<CropDefinition>, n: nat) -> bool
    decreases n,
{
    n == 0 || (automation_safe(g, kind, crops) && match automation_step(g, kind, crops) {
        (g1, Some(m)) => run_cycles_safe(g1, kind, crops, (n - 1) as nat),
        (g1, None) => true,
    })
}

/// A machine's timer after `elapsed_ms` more milliseconds, and how many
/// actions it takes: one per level for each full cycle (a cycle is the
/// interval divided by the level), at most `MAX_CYCLES` in all; the remainder
/// stays on the timer.
pub open spec fn machine_timer(state: UpgradeState, interval_seconds: u64, elapsed_ms: u64) -> (UpgradeState, nat) {
    let total = saturate(state.elapsed_ms + elapsed_ms);
    let interval = interval_seconds * 1000;
    if interval == 0 {
        (UpgradeState { elapsed_ms: total, ..state }, if total > 0 { MAX_CYCLES as nat } else { 0 })
    } else {
        let raw = (total * state.level) / interval;
        (
            UpgradeState { elapsed_ms: ((total * state.level) % interval / state.level as int) as u64, ..state },
            if raw * state.level > MAX_CYCLES { MAX_CYCLES as nat } else { (raw * state.level) as nat },
        )
    }
}

/// The first `n` machines of the catalog take their turn, in catalog order;
/// machines not held and growth boosts do not run.
pub open spec fn run_machines(
    g: GameModel,
    ups: Seq<UpgradeDefinition>,
    crops: Seq<CropDefinition>,
    elapsed_ms: u64,
    n: nat,
) -> (GameModel, Seq<Seq<char>>)
    decreases n,
{
    if n == 0 || n > ups.len() {
        (g, Seq::empty())
    } else {
        let (g1, messages) = run_machines(g, ups, crops, elapsed_ms, (n - 1) as nat);
        let u = ups[n - 1];
        let state = upgrade_state_of(g1.upgrades, u.id@);
        if state.level == 0 || u.kind == UpgradeKind::GrowthBoost {
            (g1, messages)
        } else {
            let (timer, cycles) = machine_timer(state, u.interval_seconds, elapsed_ms);
            let g2 = GameModel { upgrades: g1.upgrades.insert(u.id@, timer), ..g1 };
            let (g3, more) = run_cycles(g2, u.kind, crops, cycles);
            (g3, messages + more)
        }
    }
}

/// Every machine run among the first `n` machines' turns is safe.
pub open spec fn run_machines_safe(
    g: GameModel,
    ups: Seq<UpgradeDefinition>,
    crops: Seq<CropDefinition>,
    elapsed_ms: u64,
    n: nat,
) -> bool
    decreases n,
{
    if n == 0 || n > ups.len() {
        true
    } else {
        let (g1, messages) = run_machines(g, ups, crops, elapsed_ms, (n - 1) as nat);
        let u = ups[n - 1];
        let state = upgrade_state_of(g1.upgrades, u.id@);
        &&& run_machines_safe(g, ups, crops, elapsed_ms, (n - 1) as nat)
        &&& (state.level == 0 || u.kind == UpgradeKind::GrowthBoost || {
            let (timer, cycles) = machine_timer(state, u.interval_seconds, elapsed_ms);
            run_cycles_safe(GameModel { upgrades: g1.upgrades.insert(u.id@, timer), ..g1 }, u.kind, crops, cycles)
        })
    }
}

/// The views of a list of texts.
pub open spec fn texts(v: Seq<String>) -> Seq<Seq<char>> {
    v.map_values(|s: String| s@)
}

impl GameState {
    fn first_untilled(&self) -> (res: Option<usize>)
        ensures
            res matches Some(i) ==> first_tile(self.tiles@, untilled_pred()) == Some(i as int),
            res is None ==> first_tile(self.tiles@, untilled_pred()) is None,
    {
        let n = self.tiles.len();
        let mut i: usize = 0;
        while i < n
            invariant
                n == self.tiles@.len(),
                i <= n,
                forall|j: int| 0 <= j < i ==> !untilled_pred()(#[trigger] self.tiles@[j]),
            decreases n - i,
        {
            match &self.tiles[i] {
                TileState::Untilled => {
                    proof {
                        lemma_first_tile_found(self.tiles@, untilled_pred(), i as int);
                    }
                    return Some(i);
                },
                _ => {},
            }
            i = i + 1;
        }
        proof {
            lemma_first_tile_none(self.tiles@, untilled_pred());
        }
        None
    }

    fn first_tilled(&self) -> (res: Option<usize>)
        ensures
            res matches Some(i) ==> first_tile(self.tiles@, tilled_pred()) == Some(i as int),
            res is None ==> first_tile(self.tiles@, tilled_pred()) is None,
    {
        let n = self.tiles.len();
        let mut i: usize = 0;
        while i < n
            invariant
                n == self.tiles@.len(),
                i <= n,
                forall|j: int| 0 <= j < i ==> !tilled_pred()(#[trigger] self.tiles@[j]),
            decreases n - i,
        {
            match &self.tiles[i] {
                TileState::Tilled => {
                    proof {
                        lemma_first_tile_found(self.tiles@, tilled_pred(), i as int);
                    }
                    return Some(i);
                },
                _ => {},
            }
            i = i + 1;
        }
        proof {
            lemma_first_tile_none(self.tiles@, tilled_pred());
        }
        None
    }

    fn first_ripe(&self, catalog: &CropCatalog) -> (res: Option<usize>)
        ensures
            res matches Some(i) ==> first_tile(self.tiles@, ripe_pred(catalog.crops@)) == Some(i as int),
            res is None ==> first_tile(self.tiles@, ripe_pred(catalog.crops@)) is None,
    {
        let ghost p = ripe_pred(catalog.crops@);
        let n = self.tiles.len();
        let mut i: usize = 0;
        while i < n
            invariant
                n == self.tiles@.len(),
                i <= n,
                p == ripe_pred(catalog.crops@),
                forall|j: int| 0 <= j < i ==> !p(#[trigger] self.tiles@[j]),
            decreases n - i,
        {
            match &self.tiles[i] {
                TileState::Planted { crop_id, progress_ms } => {
                    match catalog.get(crop_id.as_str()) {
                        Some(crop) => {
                            if *progress_ms as u128 >= crop.grow_seconds as u128 * 1000 {
                                proof {
                                    lemma_first_tile_found(self.tiles@, p, i as int);
                                }
                                return Some(i);
                            }
                        },
                        None => {},
                    }
                },
                _ => {},
            }
            i = i + 1;
        }
        proof {
            lemma_first_tile_none(self.tiles@, p);
        }
        None
    }

    /// Runs a machine of the given kind once. Gives its message, or nothing
    /// when the machine found nothing to do.
    pub fn run_automation_action(&mut self, kind: UpgradeKind, catalog: &CropCatalog) -> (res: Option<String>)
        requires
            automation_safe(old(self)@, kind, catalog.crops@),
        ensures
            (final(self)@, match res {
                Some(m) => Some(m@),
                None => None::<Seq<char>>,
            }) == automation_step(old(self)@, kind, catalog.crops@),
    {
        match kind {
            UpgradeKind::AutoTill => {
                let i = match self.first_untilled() {
                    Some(i) => i,
                    None => {
                        return None;
                    },
                };
                self.tiles.set(i, TileState::Tilled);
                Some(owned("Cultivator tilled soil"))
            },
            UpgradeKind::AutoSow => {
                let crop = self.selected_definition(catalog);
                let n = self.seed_count(crop.id.as_str());
                if self.run_earnings < crop.unlock_earnings || n == 0 {
                    return None;
                }
                let i = match self.first_tilled() {
                    Some(i) => i,
                    None => {
                        return None;
                    },
                };
                self.seeds.insert(crop.id.clone(), n - 1);
                self.tiles.set(i, TileState::Planted { crop_id: crop.id.clone(), progress_ms: 0 });
                Some(joined("Seed drill sowed ", crop.name.as_str()))
            },
            UpgradeKind::AutoHarvest => {
                let i = match self.first_ripe(catalog) {
                    Some(i) => i,
                    None => {
                        return None;
                    },
                };
                let crop_id = match &self.tiles[i] {
                    TileState::Planted { crop_id, .. } => crop_id.clone(),
                    _ => {
                        return None;
                    },
                };
                let crop = match catalog.get(crop_id.as_str()) {
                    Some(crop) => crop,
                    None => {
                        return None;
                    },
                };
                let n = self.produce_count(crop_id.as_str());
                self.produce.insert(crop_id, n + 1);
                self.tiles.set(i, TileState::Tilled);
                Some(joined("Harvester collected ", crop.name.as_str()))
            },
            UpgradeKind::AutoSell => match self.sell_all(catalog) {
                ActionResult::Changed(message) => Some(joined("Market stall: ", message.as_str())),
                ActionResult::Unchanged(_) => None,
            },
            UpgradeKind::GrowthBoost => None,
        }
    }
}

proof fn lemma_run_machines_safe_prefix(
    g: GameModel,
    ups: Seq<UpgradeDefinition>,
    crops: Seq<CropDefinition>,
    elapsed_ms: u64,
    n: nat,
    m: nat,
)
    requires
        run_machines_safe(g, ups, crops, elapsed_ms, n),
        m <= n <= ups.len(),
    ensures
        run_machines_safe(g, ups, crops, elapsed_ms, m),
    decreases n,
{
    if m < n {
        lemma_run_machines_safe_prefix(g, ups, crops, elapsed_ms, (n - 1) as nat, m);
    }
}

impl GameState {
    /// Lets every machine held take its turn for `elapsed_ms` more
    /// milliseconds, in catalog order. Gives the messages of all runs.
    pub fn run_automation(&mut self, elapsed_ms: u64, crops: &CropCatalog, upgrades: &UpgradeCatalog) -> (res: Vec<String>)
        requires
            run_machines_safe(old(self)@, upgrades.upgrades@, crops.crops@, elapsed_ms, upgrades.upgrades@.len()),
        ensures
            (final(self)@, texts(res@)) == run_machines(
                old(self)@,
                upgrades.upgrades@,
                crops.crops@,
                elapsed_ms,
                upgrades.upgrades@.len(),
            ),
    {
        let ghost g0 = self@;
        let ghost ups = upgrades.upgrades@;
        let n = upgrades.upgrades.len();
        let mut messages: Vec<String> = Vec::new();
        let mut i: usize = 0;
        while i < n
            invariant
                n == ups.len(),
                ups == upgrades.upgrades@,
                i <= n,
                run_machines_safe(g0, ups, crops.crops@, elapsed_ms, n as nat),
                (self@, texts(messages@)) == run_machines(g0, ups, crops.crops@, elapsed_ms, i as nat),
            decreases n - i,
        {
            let ghost g1 = self@;
            let ghost ms1 = texts(messages@);
            proof {
                lemma_run_machines_safe_prefix(g0, ups, crops.crops@, elapsed_ms, n as nat, (i + 1) as nat);
            }
            let upgrade = &upgrades.upgrades[i];
            let kind = upgrade.kind;
            let state = match self.upgrades.get(upgrade.id.as_str()) {
                Some(state) => state,
                None => UpgradeState { level: 0, elapsed_ms: 0 },
            };
            if state.level == 0 || kind == UpgradeKind::GrowthBoost {
                i = i + 1;
            } else {
                let level = state.level;
                let total = state.elapsed_ms.saturating_add(elapsed_ms);
                let interval: u128 = upgrade.interval_seconds as u128 * 1000;
                let mut cycles: u64 = 0;
                let mut remainder: u64 = total;
                if interval == 0 {
                    if total > 0 {
                        cycles = MAX_CYCLES;
                    }
                } else {
                    proof {
                        assert(total * level <= u64::MAX * u32::MAX) by (nonlinear_arith)
                            requires
                                total <= u64::MAX,
                                level <= u32::MAX,
                        ;
                        assert(u64::MAX * u32::MAX <= u128::MAX) by (nonlinear_arith);
                    }
                    let product: u128 = total as u128 * level as u128;
                    let raw = product / interval;
                    proof {
                        let p = product as int;
                        let v = interval as int;
                        let l = level as int;
                        assert((p % v) / l <= p / l) by (nonlinear_arith)
                            requires
                                v > 0,
                                l > 0,
                                p >= 0,
                        ;
                        assert(p / l == total) by (nonlinear_arith)
                            requires
                                p == total * l,
                                l > 0,
                        ;
                    }
                    remainder = ((product % interval) / level as u128) as u64;
                    cycles = if raw > MAX_CYCLES as u128 {
                        MAX_CYCLES
                    } else {
                        proof {
                            assert(raw * level <= 1000 * u32::MAX) by (nonlinear_arith)
                                requires
                                    raw <= 1000,
                                    level <= u32::MAX,
                            ;
                        }
                        let actions = raw * level as u128;
                        if actions > MAX_CYCLES as u128 { MAX_CYCLES } else { actions as u64 }
                    };
                    proof {
                        if raw > MAX_CYCLES as u128 {
                            assert(raw * level >= raw) by (nonlinear_arith)
                                requires
                                    level >= 1,
                                    raw >= 0,
                            ;
                        }
                    }
                }
                let ghost timer = UpgradeState { level, elapsed_ms: remainder };
                assert((timer, cycles as nat) == machine_timer(state, upgrade.interval_seconds, elapsed_ms));
                self.upgrades.insert(upgrade.id.clone(), UpgradeState { level, elapsed_ms: remainder });
                let ghost g2 = self@;
                let ghost target = run_cycles(g2, kind, crops.crops@, cycles as nat);
                let ghost mut done: Seq<Seq<char>> = Seq::empty();
                let mut stopped = false;
                let mut c: u64 = 0;
                while c < cycles && !stopped
                    invariant
                        c <= cycles,
                        target == run_cycles(g2, kind, crops.crops@, cycles as nat),
                        texts(messages@) == ms1 + done,
                        !stopped ==> run_cycles_safe(self@, kind, crops.crops@, (cycles - c) as nat),
                        !stopped ==> target == (run_cycles(self@, kind, crops.crops@, (cycles - c) as nat).0, done
                            + run_cycles(self@, kind, crops.crops@, (cycles - c) as nat).1),
                        stopped ==> target == (self@, done),
                    decreases (cycles - c) * 2 + if stopped { 0int } else { 1int },
                {
                    let ghost before = self@;
                    match self.run_automation_action(kind, crops) {
                        Some(message) => {
                            let ghost old_messages = messages@;
                            let ghost old_done = done;
                            proof {
                                done = done.push(message@);
                            }
                            messages.push(message);
                            assert(messages@ == old_messages.push(message));
                            assert(texts(old_messages) == ms1 + old_done);
                            assert(texts(messages@) =~= texts(old_messages).push(message@));
                            assert(texts(messages@) =~= ms1 + done);
                            c = c + 1;
                        },
                        None => {
                            stopped = true;
                        },
                    }
                }
                proof {
                    if !stopped {
                        assert(c == cycles);
                    }
                }
                i = i + 1;
            }
        }
        messages
    }
}

// ---------------------------------------------------------------------------
// Checks that an action can run

impl GameState {
    /// Whether working a tile stays within the field, the catalog and the counts.
    pub fn use_tile_is_safe(&self, row: u32, col: u32, catalog: &CropCatalog) -> (res: bool)
        ensures
            res == use_tile_safe(self@, row, col, catalog.crops@),
    {
        if !(row < self.rows && col < self.cols) {
            return true;
        }
        proof {
            assert(row * self.cols <= u32::MAX * u32::MAX) by (nonlinear_arith)
                requires
                    row <= u32::MAX,
                    self.cols <= u32::MAX,
            ;
            assert(u32::MAX * u32::MAX + u32::MAX <= u64::MAX) by (nonlinear_arith);
        }
        if row as u64 * self.cols as u64 + col as u64 > u32::MAX as u64 {
            return false;
        }
        let i = (row * self.cols + col) as usize;
        if i >= self.tiles.len() {
            return false;
        }
        match &self.tiles[i] {
            TileState::Untilled => true,
            TileState::Tilled => catalog.crops.len() > 0,
            TileState::Planted { crop_id, progress_ms } => match catalog.get(crop_id.as_str()) {
                Some(crop) => {
                    if *progress_ms as u128 >= crop.grow_seconds as u128 * 1000 {
                        self.produce_count(crop_id.as_str()) < u32::MAX
                    } else {
                        true
                    }
                },
                None => true,
            },
        }
    }

    /// Whether buying a seed has a crop to buy and room in the seed count.
    pub fn buy_seed_is_safe(&self, catalog: &CropCatalog) -> (res: bool)
        ensures
            res == buy_seed_safe(self@, catalog.crops@),
    {
        if catalog.crops.len() == 0 {
            return false;
        }
        let crop = self.selected_definition(catalog);
        if self.run_earnings >= crop.unlock_earnings && self.coins >= crop.seed_price {
            self.seed_count(crop.id.as_str()) < u32::MAX
        } else {
            true
        }
    }

    /// Whether buying the machine at shop position `index` has room in its level count.
    pub fn buy_upgrade_is_safe(&self, index: usize, catalog: &UpgradeCatalog) -> (res: bool)
        ensures
            res == buy_upgrade_safe(self@, index as int, catalog.upgrades@),
    {
        if index >= catalog.upgrades.len() {
            return true;
        }
        let upgrade = &catalog.upgrades[index];
        if self.run_earnings >= upgrade.unlock_earnings && self.coins >= self.upgrade_cost(upgrade) {
            self.upgrade_level(upgrade.id.as_str()) < u32::MAX
        } else {
            true
        }
    }

    /// Whether buying a row has a defined price and room in the row count.
    pub fn buy_row_is_safe(&self) -> (res: bool)
        ensures
            res == buy_row_safe(self@),
    {
        if self.rows == 0 {
            return false;
        }
        let r = (self.rows - 1) as u128;
        proof {
            assert(r * r <= u32::MAX * u32::MAX) by (nonlinear_arith)
                requires
                    r <= u32::MAX,
            ;
            assert(25 * (u32::MAX * u32::MAX) <= u128::MAX) by (nonlinear_arith);
        }
        let cost: u128 = 25 * (r * r);
        if cost > u64::MAX as u128 {
            return false;
        }
        !(self.coins as u128 >= cost && self.rows == u32::MAX)
    }

    /// Whether buying a column has a defined price and room in the field size.
    pub fn buy_column_is_safe(&self) -> (res: bool)
        ensures
            res == buy_column_safe(self@),
    {
        if self.cols == 0 {
            return false;
        }
        let c = (self.cols - 1) as u128;
        proof {
            assert(c * c <= u32::MAX * u32::MAX) by (nonlinear_arith)
                requires
                    c <= u32::MAX,
            ;
            assert(25 * (u32::MAX * u32::MAX) <= u128::MAX) by (nonlinear_arith);
        }
        let cost: u128 = 25 * (c * c);
        if cost > u64::MAX as u128 {
            return false;
        }
        if self.coins as u128 >= cost {
            proof {
                assert(self.rows * (self.cols + 1) <= u32::MAX * (u32::MAX + 1)) by (nonlinear_arith)
                    requires
                        self.rows <= u32::MAX,
                        self.cols <= u32::MAX,
                ;
                assert(u32::MAX * (u32::MAX + 1) <= u128::MAX) by (nonlinear_arith);
            }
            self.cols < u32::MAX && (self.rows as u128) * (self.cols as u128 + 1) <= u32::MAX as u128
        } else {
            true
        }
    }

    /// Whether a rebirth has a first crop and room in its counters.
    pub fn rebirth_is_safe(&self, catalog: &CropCatalog) -> (res: bool)
        ensures
            res == rebirth_safe(self@, catalog.crops@),
    {
        if self.run_earnings >= self.rebirth_requirement() {
            catalog.crops.len() > 0 && self.rebirth_count < u32::MAX && self.rebirth_tokens < u32::MAX
        } else {
            true
        }
    }
}

// ---------------------------------------------------------------------------
// Room in the produce counts for the machinery

/// Every produce count can still grow by `b` and stay below `u32::MAX`.
pub open spec fn produce_headroom(g: GameModel, b: int) -> bool {
    forall|k: Seq<char>| #[trigger] count_of(g.produce, k) + b < u32::MAX
}

proof fn lemma_sell_through_shrinks(produce: Map<Seq<char>, u32>, crops: Seq<CropDefinition>, n: nat, tokens: u32)
    ensures
        forall|k: Seq<char>| #[trigger] count_of(sell_through(produce, crops, n, tokens).0, k) <= count_of(produce, k),
    decreases n,
{
    if n > 0 && n <= crops.len() {
        lemma_sell_through_shrinks(produce, crops, (n - 1) as nat, tokens);
        let p = sell_through(produce, crops, (n - 1) as nat, tokens).0;
        let c = crops[n - 1];
        assert forall|k: Seq<char>| #[trigger] count_of(p.remove(c.id@), k) <= count_of(produce, k) by {
            assert(count_of(p, k) <= count_of(produce, k));
        }
    }
}

/// The produce room one run of a machine of this kind uses: one for a harvest.
pub open spec fn harvest_room(kind: UpgradeKind) -> int {
    if kind == UpgradeKind::AutoHarvest { 1 } else { 0 }
}

/// How many of the first `n` catalog machines harvest.
pub open spec fn harvesters(ups: Seq<UpgradeDefinition>, n: nat) -> nat
    decreases n,
{
    if n == 0 || n > ups.len() {
        0
    } else {
        harvesters(ups, (n - 1) as nat) + if ups[n - 1].kind == UpgradeKind::AutoHarvest {
            1nat
        } else {
            0nat
        }
    }
}

proof fn lemma_step_headroom(g: GameModel, kind: UpgradeKind, crops: Seq<CropDefinition>, b: int)
    requires
        b >= harvest_room(kind),
        produce_headroom(g, b),
        crops.len() > 0,
    ensures
        automation_safe(g, kind, crops),
        produce_headroom(automation_step(g, kind, crops).0, b - harvest_room(kind)),
{
    let g1 = automation_step(g, kind, crops).0;
    match kind {
        UpgradeKind::AutoHarvest => {
            match first_tile(g.tiles, ripe_pred(crops)) {
                Some(i) => {
                    let id = planted_id(g.tiles[i]);
                    assert(count_of(g.produce, id) + b < u32::MAX);
                    assert forall|k: Seq<char>| #[trigger] count_of(g1.produce, k) + (b - 1) < u32::MAX by {
                        assert(count_of(g.produce, k) + b < u32::MAX);
                    }
                },
                None => {},
            }
        },
        UpgradeKind::AutoSell => {
            lemma_sell_through_shrinks(g.produce, crops, crops.len(), g.rebirth_tokens);
            assert forall|k: Seq<char>| #[trigger] count_of(g1.produce, k) + b < u32::MAX by {
                assert(count_of(g.produce, k) + b < u32::MAX);
            }
        },
        _ => {
            assert forall|k: Seq<char>| #[trigger] count_of(g1.produce, k) + b < u32::MAX by {
                assert(count_of(g.produce, k) + b < u32::MAX);
            }
        },
    }
}

proof fn lemma_cycles_headroom(g: GameModel, kind: UpgradeKind, crops: Seq<CropDefinition>, n: nat, b: int)
    requires
        n * harvest_room(kind) <= b,
        produce_headroom(g, b),
        crops.len() > 0,
    ensures
        run_cycles_safe(g, kind, crops, n),
        produce_headroom(run_cycles(g, kind, crops, n).0, b - n * harvest_room(kind)),
    decreases n,
{
    if n == 0 {
    } else {
        assert(n * harvest_room(kind) == (n - 1) * harvest_room(kind) + harvest_room(kind)) by (nonlinear_arith);
        assert((n - 1) * harvest_room(kind) >= 0) by (nonlinear_arith)
            requires
                n >= 1,
                harvest_room(kind) >= 0,
        ;
        lemma_step_headroom(g, kind, crops, b);
        let (g1, message) = automation_step(g, kind, crops);
        match message {
            Some(m) => {
                lemma_cycles_headroom(g1, kind, crops, (n - 1) as nat, b - harvest_room(kind));
            },
            None => {
                assert forall|k: Seq<char>| #[trigger] count_of(g1.produce, k) + (b - n * harvest_room(kind))
                    < u32::MAX by {
                    assert(count_of(g1.produce, k) + (b - harvest_room(kind)) < u32::MAX);
                }
            },
        }
    }
}

proof fn lemma_machines_headroom(
    g: GameModel,
    ups: Seq<UpgradeDefinition>,
    crops: Seq<CropDefinition>,
    elapsed_ms: u64,
    n: nat,
    r: int,
)
    requires
        r >= 0,
        n <= ups.len(),
        produce_headroom(g, MAX_CYCLES * harvesters(ups, n) + r),
        crops.len() > 0,
    ensures
        run_machines_safe(g, ups, crops, elapsed_ms, n),
        produce_headroom(run_machines(g, ups, crops, elapsed_ms, n).0, r),
    decreases n,
{
    if n == 0 {
    } else {
        let u = ups[n - 1];
        let room = MAX_CYCLES * harvest_room(u.kind);
        assert(MAX_CYCLES * harvesters(ups, n) + r == MAX_CYCLES * harvesters(ups, (n - 1) as nat) + (r + room));
        lemma_machines_headroom(g, ups, crops, elapsed_ms, (n - 1) as nat, r + room);
        let (g1, messages) = run_machines(g, ups, crops, elapsed_ms, (n - 1) as nat);
        let state = upgrade_state_of(g1.upgrades, u.id@);
        if state.level == 0 || u.kind == UpgradeKind::GrowthBoost {
            assert forall|k: Seq<char>| #[trigger] count_of(g1.produce, k) + r < u32::MAX by {
                assert(count_of(g1.produce, k) + (r + room) < u32::MAX);
            }
        } else {
            let (timer, cycles) = machine_timer(state, u.interval_seconds, elapsed_ms);
            let g2 = GameModel { upgrades: g1.upgrades.insert(u.id@, timer), ..g1 };
            assert(produce_headroom(g2, r + room));
            assert(cycles <= MAX_CYCLES);
            assert(cycles * harvest_room(u.kind) <= room) by (nonlinear_arith)
                requires
                    cycles <= MAX_CYCLES,
                    room == MAX_CYCLES * harvest_room(u.kind),
                    0 <= harvest_room(u.kind) <= 1,
            ;
            lemma_cycles_headroom(g2, u.kind, crops, cycles, r + room);
            let g3 = run_cycles(g2, u.kind, crops, cycles).0;
            assert forall|k: Seq<char>| #[trigger] count_of(g3.produce, k) + r < u32::MAX by {
                assert(count_of(g3.produce, k) + (r + room - cycles * harvest_room(u.kind)) < u32::MAX);
            }
        }
    }
}

/// With a crop to sow and room in every produce count for a full turn of
/// every harvesting machine, the machinery can take its turn.
pub proof fn lemma_headroom_makes_machines_safe(
    g: GameModel,
    ups: Seq<UpgradeDefinition>,
    crops: Seq<CropDefinition>,
    elapsed_ms: u64,
)
    requires
        crops.len() > 0,
        produce_headroom(g, MAX_CYCLES * harvesters(ups, ups.len())),
    ensures
        run_machines_safe(g, ups, crops, elapsed_ms, ups.len()),
{
    lemma_machines_headroom(g, ups, crops, elapsed_ms, ups.len(), 0);
}

impl GameState {
    /// Whether the machinery's turn is sure to run: a crop is on offer and
    /// every produce count has room for a full turn of every harvesting machine.
    pub fn machines_are_safe(&self, crops: &CropCatalog, upgrades: &UpgradeCatalog) -> (res: bool)
        ensures
            res == (crops.crops@.len() > 0 && produce_headroom(
                self@,
                MAX_CYCLES * harvesters(upgrades.upgrades@, upgrades.upgrades@.len()),
            )),
    {
        let ghost ups = upgrades.upgrades@;
        let n = upgrades.upgrades.len();
        let mut count: u64 = 0;
        let mut i: usize = 0;
        while i < n
            invariant
                ups == upgrades.upgrades@,
                n == ups.len(),
                i <= n,
                count == harvesters(ups, i as nat),
                count <= i,
            decreases n - i,
        {
            if upgrades.upgrades[i].kind == UpgradeKind::AutoHarvest {
                count = count + 1;
            }
            i = i + 1;
        }
        if crops.crops.len() == 0 {
            return false;
        }
        if count > u32::MAX as u64 / MAX_CYCLES {
            proof {
                assert(MAX_CYCLES * count >= u32::MAX) by (nonlinear_arith)
                    requires
                        count > 4294967,
                        MAX_CYCLES == 1000,
                ;
                let k = Seq::<char>::empty();
                assert(!(count_of(self@.produce, k) + MAX_CYCLES * count < u32::MAX));
            }
            return false;
        }
        self.has_produce_headroom(count * MAX_CYCLES)
    }
}

impl GameState {
    /// Whether every produce count has room for `b` more.
    pub fn has_produce_headroom(&self, b: u64) -> (res: bool)
        ensures
            res == produce_headroom(self@, b as int),
    {
        if b >= u32::MAX as u64 {
            proof {
                let k = Seq::<char>::empty();
                assert(!(count_of(self@.produce, k) + b < u32::MAX));
            }
            return false;
        }
        let res = self.produce.values_below(u32::MAX as u64 - b);
        proof {
            if res {
                assert forall|k: Seq<char>| #[trigger] count_of(self.produce@, k) + b < u32::MAX by {
                    if self.produce@.contains_key(k) {
                        assert((self.produce@[k] as int) < u32::MAX - b);
                    }
                }
            } else {
                let k = choose|k: Seq<char>| #[trigger] self.produce@.contains_key(k) && !((self.produce@[k] as int) < u32::MAX - b);
                assert(!(count_of(self@.produce, k) + b < u32::MAX));
            }
        }
        res
    }
}

} // verus!
