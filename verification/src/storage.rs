//! Saving and loading a farm: the schema versions, and the conversion between
//! a farm and the records that the save database holds.
use vstd::prelude::*;

use crate::data::{CropCatalog, UpgradeCatalog};
use crate::game::{check_game, GameError, GameModel, GameState, TileState, UpgradeState};
use crate::keyed::TextMap;
use crate::text::{owned, push_signed_decimal, signed_decimal};

verus! {

/// The newest save schema this version understands.
pub const LATEST_SCHEMA: i32 = 2;

/// Why a save could not be opened, written or read.
#[derive(Debug, PartialEq, Eq)]
pub enum StorageError {
    NewerSchema { found: i32, supported: i32 },
    InvalidTileState(String),
    NumericOverflow(String),
    InvalidGame(GameError),
}

/// Checks a save's schema version before opening it. Gives whether the file
/// should be backed up first: an existing save of an older schema is.
pub fn check_schema(current: i32, existed: bool) -> (res: Result<bool, StorageError>)
    ensures
        current > LATEST_SCHEMA <==> res is Err,
        res matches Err(e) ==> e == (StorageError::NewerSchema { found: current, supported: LATEST_SCHEMA }),
        res matches Ok(backup) ==> backup == (existed && 0 < current < LATEST_SCHEMA),
{
    if current > LATEST_SCHEMA {
        return Err(StorageError::NewerSchema { found: current, supported: LATEST_SCHEMA });
    }
    Ok(existed && current > 0 && current < LATEST_SCHEMA)
}

/// The schema versions to apply, in order, to a save at version `current`.
pub open spec fn pending_migrations_of(current: i32) -> Seq<i32> {
    if current < 1 {
        seq![1i32, 2i32]
    } else if current < 2 {
        seq![2i32]
    } else {
        Seq::empty()
    }
}

/// The schema versions to apply, in order, to a save at version `current`.
pub fn pending_migrations(current: i32) -> (res: Vec<i32>)
    ensures
        res@ == pending_migrations_of(current),
{
    let mut res = Vec::new();
    if current < 1 {
        res.push(1);
    }
    if current < 2 {
        res.push(2);
    }
    assert(res@ =~= pending_migrations_of(current));
    res
}

/// The file name of a save's backup: "<stem>.backup-<time>.db".
pub open spec fn backup_path_of(stem: Option<Seq<char>>, now_utc: i64) -> Seq<char> {
    (match stem {
        Some(s) => s,
        None => "terminalfarms"@,
    }) + ".backup-"@ + signed_decimal(now_utc as int) + ".db"@
}

/// The file name of a save's backup, from the save's file stem (when it is
/// valid text) and the time.
pub fn backup_path(stem: Option<&str>, now_utc: i64) -> (res: String)
    ensures
        res@ == backup_path_of(
            match stem {
                Some(s) => Some(s@),
                None => None,
            },
            now_utc,
        ),
{
    let mut name = match stem {
        Some(s) => owned(s),
        None => owned("terminalfarms"),
    };
    name.append(".backup-");
    push_signed_decimal(&mut name, now_utc);
    name.append(".db");
    name
}

// ---------------------------------------------------------------------------
// Records

/// The player's row of a save.
#[derive(Debug, Clone, Copy, PartialEq, Eq, Structural)]
pub struct PlayerRecord {
    pub coins: i64,
    pub run_earnings: i64,
    pub rebirth_tokens: u32,
    pub rebirth_count: u32,
    pub rows: u32,
    pub cols: u32,
    pub selected_crop: i64,
    pub last_seen_utc: i64,
}

/// The player's row as a save is read back.
#[derive(Debug, Clone, Copy, PartialEq, Eq, Structural)]
pub struct SavedPlayer {
    pub coins: i64,
    pub run_earnings: i64,
    pub rebirth_tokens: u32,
    pub rebirth_count: u32,
    pub rows: u32,
    pub cols: u32,
    pub selected_crop: u32,
    pub last_seen_utc: i64,
}

/// The player's row as the database gives it back: the same values, with the
/// selection read as an unsigned 32-bit column.
pub open spec fn read_back(p: PlayerRecord) -> SavedPlayer {
    SavedPlayer {
        coins: p.coins,
        run_earnings: p.run_earnings,
        rebirth_tokens: p.rebirth_tokens,
        rebirth_count: p.rebirth_count,
        rows: p.rows,
        cols: p.cols,
        selected_crop: p.selected_crop as u32,
        last_seen_utc: p.last_seen_utc,
    }
}

/// One tile's row of a save: its place, its state's name ("untilled",
/// "tilled" or "planted"), the crop of a planted tile, and the growth so far.
#[derive(Debug)]
pub struct TileRecord {
    pub row: u32,
    pub col: u32,
    pub state: String,
    pub crop_id: Option<String>,
    pub progress_ms: u64,
}

/// One inventory row of a save: "seed" or "produce", the crop, the count.
#[derive(Debug)]
pub struct InventoryRecord {
    pub kind: String,
    pub id: String,
    pub quantity: u32,
}

/// One machine's row of a save.
#[derive(Debug)]
pub struct UpgradeRecord {
    pub id: String,
    pub level: u32,
    pub elapsed_ms: u64,
}

/// Everything a save holds.
#[derive(Debug)]
pub struct SaveRecord {
    pub player: PlayerRecord,
    pub tiles: Vec<TileRecord>,
    pub inventory: Vec<InventoryRecord>,
    pub upgrades: Vec<UpgradeRecord>,
}

/// A tile's row describes the tile at a place.
pub open spec fn tile_record_matches(rec: TileRecord, t: TileState, row: u32, col: u32) -> bool {
    &&& rec.row == row
    &&& rec.col == col
    &&& match t {
        TileState::Untilled => rec.state@ == "untilled"@ && rec.crop_id is None && rec.progress_ms == 0,
        TileState::Tilled => rec.state@ == "tilled"@ && rec.crop_id is None && rec.progress_ms == 0,
        TileState::Planted { crop_id, progress_ms } => rec.state@ == "planted"@ && rec.crop_id == Some(crop_id)
            && rec.progress_ms == progress_ms,
    }
}

/// A count that a save's integer column can hold.
pub open spec fn fits_i64(x: int) -> bool {
    x <= i64::MAX
}

/// The save's records describe a farm: its player row stamped with
/// `now_utc`, one row per tile in row-major order, the seeds and then the
/// produce in key order, and the machines in key order.
pub open spec fn record_matches(r: SaveRecord, state: GameState, now_utc: i64) -> bool {
    let g = state@;
    let seeds = state.seeds.pairs();
    let produce = state.produce.pairs();
    let ups = state.upgrades.pairs();
    &&& r.player == PlayerRecord {
        coins: g.coins as i64,
        run_earnings: g.run_earnings as i64,
        rebirth_tokens: g.rebirth_tokens,
        rebirth_count: g.rebirth_count,
        rows: g.rows,
        cols: g.cols,
        selected_crop: g.selected_crop as i64,
        last_seen_utc: now_utc,
    }
    &&& r.tiles@.len() == g.rows * g.cols
    &&& forall|row: u32, col: u32|
        row < g.rows && col < g.cols ==> #[trigger] tile_record_matches(
            r.tiles@[row * g.cols + col],
            g.tiles[row * g.cols + col],
            row,
            col,
        )
    &&& r.inventory@.len() == seeds.len() + produce.len()
    &&& forall|i: int|
        0 <= i < seeds.len() ==> (#[trigger] r.inventory@[i]).kind@ == "seed"@ && r.inventory@[i].id@ == seeds[i].0
            && r.inventory@[i].quantity == seeds[i].1
    &&& forall|i: int|
        0 <= i < produce.len() ==> (#[trigger] r.inventory@[seeds.len() + i]).kind@ == "produce"@
            && r.inventory@[seeds.len() + i].id@ == produce[i].0 && r.inventory@[seeds.len() + i].quantity
            == produce[i].1
    &&& r.upgrades@.len() == ups.len()
    &&& forall|i: int|
        0 <= i < ups.len() ==> (#[trigger] r.upgrades@[i]).id@ == ups[i].0 && r.upgrades@[i].level == ups[i].1.level
            && r.upgrades@[i].elapsed_ms == ups[i].1.elapsed_ms
}

fn tile_record(t: &TileState, row: u32, col: u32) -> (res: TileRecord)
    ensures
        tile_record_matches(res, *t, row, col),
{
    match t {
        TileState::Untilled => TileRecord { row, col, state: owned("untilled"), crop_id: None, progress_ms: 0 },
        TileState::Tilled => TileRecord { row, col, state: owned("tilled"), crop_id: None, progress_ms: 0 },
        TileState::Planted { crop_id, progress_ms } => TileRecord {
            row,
            col,
            state: owned("planted"),
            crop_id: Some(crop_id.clone()),
            progress_ms: *progress_ms,
        },
    }
}

/// Describes a farm as the records of a save, stamped with `now_utc`. Coins,
/// earnings and the selection must fit a signed 64-bit column; the first that
/// does not is named in the error.
pub fn save_record(state: &GameState, now_utc: i64) -> (res: Result<SaveRecord, StorageError>)
    requires
        fits_i64(state.coins as int) && fits_i64(state.run_earnings as int) && fits_i64(state.selected_crop as int)
            ==> state.rows * state.cols <= state.tiles@.len() && state.rows * state.cols <= u32::MAX + 1,
    ensures
        !fits_i64(state.coins as int) ==> (res matches Err(StorageError::NumericOverflow(f)) && f@ == "coins"@),
        fits_i64(state.coins as int) && !fits_i64(state.run_earnings as int) ==> (res matches Err(
            StorageError::NumericOverflow(f),
        ) && f@ == "run_earnings"@),
        fits_i64(state.coins as int) && fits_i64(state.run_earnings as int) && !fits_i64(state.selected_crop as int)
            ==> (res matches Err(StorageError::NumericOverflow(f)) && f@ == "selected_crop"@),
        fits_i64(state.coins as int) && fits_i64(state.run_earnings as int) && fits_i64(state.selected_crop as int)
            ==> (res matches Ok(r) && record_matches(r, *state, now_utc)),
{
    if state.coins > i64::MAX as u64 {
        return Err(StorageError::NumericOverflow(owned("coins")));
    }
    if state.run_earnings > i64::MAX as u64 {
        return Err(StorageError::NumericOverflow(owned("run_earnings")));
    }
    if state.selected_crop as u64 > i64::MAX as u64 {
        return Err(StorageError::NumericOverflow(owned("selected_crop")));
    }
    let player = PlayerRecord {
        coins: state.coins as i64,
        run_earnings: state.run_earnings as i64,
        rebirth_tokens: state.rebirth_tokens,
        rebirth_count: state.rebirth_count,
        rows: state.rows,
        cols: state.cols,
        selected_crop: state.selected_crop as i64,
        last_seen_utc: now_utc,
    };
    let rows = state.rows;
    let cols = state.cols;
    let ghost g = state@;
    let mut tiles: Vec<TileRecord> = Vec::new();
    let mut row: u32 = 0;
    while row < rows
        invariant
            rows == g.rows,
            cols == g.cols,
            g == state@,
            rows * cols <= g.tiles.len(),
            rows * cols <= u32::MAX + 1,
            row <= rows,
            tiles@.len() == row * cols,
            forall|r: u32, c: u32|
                r < row && c < cols ==> #[trigger] tile_record_matches(
                    tiles@[r * cols + c],
                    g.tiles[r * cols + c],
                    r,
                    c,
                ),
        decreases rows - row,
    {
        let mut col: u32 = 0;
        while col < cols
            invariant
                rows == g.rows,
                cols == g.cols,
                g == state@,
                rows * cols <= g.tiles.len(),
                rows * cols <= u32::MAX + 1,
                row < rows,
                col <= cols,
                tiles@.len() == row * cols + col,
                forall|r: u32, c: u32|
                    (r < row && c < cols) || (r == row && c < col) ==> #[trigger] tile_record_matches(
                        tiles@[r * cols + c],
                        g.tiles[r * cols + c],
                        r,
                        c,
                    ),
            decreases cols - col,
        {
            proof {
                assert(row * cols + col < rows * cols) by (nonlinear_arith)
                    requires
                        row < rows,
                        col < cols,
                ;
            }
            let index = (row * cols + col) as usize;
            let record = tile_record(&state.tiles[index], row, col);
            let ghost before = tiles@;
            tiles.push(record);
            proof {
                assert forall|r: u32, c: u32|
                    (r < row && c < cols) || (r == row && c < col + 1) implies #[trigger] tile_record_matches(
                    tiles@[r * cols + c],
                    g.tiles[r * cols + c],
                    r,
                    c,
                ) by {
                    if r == row && c == col {
                    } else {
                        assert(r * cols + c < row * cols + col) by (nonlinear_arith)
                            requires
                                (r < row && c < cols) || (r == row && c < col),
                        ;
                        assert(tiles@[r * cols + c] == before[r * cols + c]);
                    }
                }
            }
            col = col + 1;
        }
        proof {
            assert((row + 1) * cols == row * cols + cols) by (nonlinear_arith);
        }
        row = row + 1;
    }
    let mut inventory: Vec<InventoryRecord> = Vec::new();
    let ghost seeds = state.seeds.pairs();
    let ghost produce = state.produce.pairs();
    let n_seeds = state.seeds.len();
    let mut i: usize = 0;
    while i < n_seeds
        invariant
            n_seeds == seeds.len(),
            seeds == state.seeds.pairs(),
            i <= n_seeds,
            inventory@.len() == i,
            forall|j: int|
                0 <= j < i ==> (#[trigger] inventory@[j]).kind@ == "seed"@ && inventory@[j].id@ == seeds[j].0
                    && inventory@[j].quantity == seeds[j].1,
        decreases n_seeds - i,
    {
        inventory.push(
            InventoryRecord {
                kind: owned("seed"),
                id: state.seeds.key_at(i).clone(),
                quantity: state.seeds.value_at(i),
            },
        );
        i = i + 1;
    }
    let n_produce = state.produce.len();
    let mut i: usize = 0;
    while i < n_produce
        invariant
            n_seeds == seeds.len(),
            n_produce == produce.len(),
            produce == state.produce.pairs(),
            i <= n_produce,
            inventory@.len() == n_seeds + i,
            forall|j: int|
                0 <= j < n_seeds ==> (#[trigger] inventory@[j]).kind@ == "seed"@ && inventory@[j].id@ == seeds[j].0
                    && inventory@[j].quantity == seeds[j].1,
            forall|j: int|
                0 <= j < i ==> (#[trigger] inventory@[n_seeds + j]).kind@ == "produce"@ && inventory@[n_seeds
                    + j].id@ == produce[j].0 && inventory@[n_seeds + j].quantity == produce[j].1,
        decreases n_produce - i,
    {
        inventory.push(
            InventoryRecord {
                kind: owned("produce"),
                id: state.produce.key_at(i).clone(),
                quantity: state.produce.value_at(i),
            },
        );
        i = i + 1;
    }
    let mut upgrades: Vec<UpgradeRecord> = Vec::new();
    let ghost ups = state.upgrades.pairs();
    let n_upgrades = state.upgrades.len();
    let mut i: usize = 0;
    while i < n_upgrades
        invariant
            n_upgrades == ups.len(),
            ups == state.upgrades.pairs(),
            i <= n_upgrades,
            upgrades@.len() == i,
            forall|j: int|
                0 <= j < i ==> (#[trigger] upgrades@[j]).id@ == ups[j].0 && upgrades@[j].level == ups[j].1.level
                    && upgrades@[j].elapsed_ms == ups[j].1.elapsed_ms,
        decreases n_upgrades - i,
    {
        let upgrade = state.upgrades.value_at(i);
        upgrades.push(
            UpgradeRecord {
                id: state.upgrades.key_at(i).clone(),
                level: upgrade.level,
                elapsed_ms: upgrade.elapsed_ms,
            },
        );
        i = i + 1;
    }
    Ok(SaveRecord { player, tiles, inventory, upgrades })
}

// ---------------------------------------------------------------------------
// Reading a farm back

/// The tile a tile's row stands for, when its state's name and crop agree.
pub open spec fn decode_tile(rec: TileRecord) -> Option<TileState> {
    if rec.state@ == "untilled"@ && rec.crop_id is None {
        Some(TileState::Untilled)
    } else if rec.state@ == "tilled"@ && rec.crop_id is None {
        Some(TileState::Tilled)
    } else if rec.state@ == "planted"@ && rec.crop_id is Some {
        Some(TileState::Planted { crop_id: rec.crop_id->0, progress_ms: rec.progress_ms })
    } else {
        None
    }
}

/// A tile's row lies on the field and names a valid state.
pub open spec fn tile_record_ok(rec: TileRecord, rows: u32, cols: u32) -> bool {
    rec.row < rows && rec.col < cols && decode_tile(rec) is Some
}

/// Row `i` is the first tile row that cannot be placed.
pub open spec fn is_first_bad_tile(records: Seq<TileRecord>, rows: u32, cols: u32, i: int) -> bool {
    0 <= i < records.len() && !tile_record_ok(records[i], rows, cols) && forall|j: int|
        0 <= j < i ==> tile_record_ok(#[trigger] records[j], rows, cols)
}

/// The field after placing the first `n` tile rows on untilled soil, in order.
pub open spec fn placed_tiles(records: Seq<TileRecord>, n: nat, rows: u32, cols: u32) -> Seq<TileState>
    decreases n,
{
    if n == 0 || n > records.len() {
        Seq::new((rows * cols) as nat, |i: int| TileState::Untilled)
    } else {
        let rec = records[n - 1];
        let before = placed_tiles(records, (n - 1) as nat, rows, cols);
        if tile_record_ok(rec, rows, cols) {
            before.update(rec.row * cols + rec.col, decode_tile(rec)->0)
        } else {
            before
        }
    }
}

/// An inventory row names a known kind.
pub open spec fn inventory_record_ok(rec: InventoryRecord) -> bool {
    rec.kind@ == "seed"@ || rec.kind@ == "produce"@
}

/// Row `i` is the first inventory row of an unknown kind.
pub open spec fn is_first_bad_item(records: Seq<InventoryRecord>, i: int) -> bool {
    0 <= i < records.len() && !inventory_record_ok(records[i]) && forall|j: int|
        0 <= j < i ==> inventory_record_ok(#[trigger] records[j])
}

/// The seed and produce counts after the first `n` inventory rows, in order.
pub open spec fn stocked(records: Seq<InventoryRecord>, n: nat) -> (Map<Seq<char>, u32>, Map<Seq<char>, u32>)
    decreases n,
{
    if n == 0 || n > records.len() {
        (Map::empty(), Map::empty())
    } else {
        let (seeds, produce) = stocked(records, (n - 1) as nat);
        let rec = records[n - 1];
        if rec.kind@ == "seed"@ {
            (seeds.insert(rec.id@, rec.quantity), produce)
        } else {
            (seeds, produce.insert(rec.id@, rec.quantity))
        }
    }
}

/// The machines after the first `n` machine rows, in order.
pub open spec fn equipped(records: Seq<UpgradeRecord>, n: nat) -> Map<Seq<char>, UpgradeState>
    decreases n,
{
    if n == 0 || n > records.len() {
        Map::empty()
    } else {
        let rec = records[n - 1];
        equipped(records, (n - 1) as nat).insert(
            rec.id@,
            UpgradeState { level: rec.level, elapsed_ms: rec.elapsed_ms },
        )
    }
}

/// The farm that a save's records stand for.
pub open spec fn restored(
    player: SavedPlayer,
    tiles: Seq<TileRecord>,
    inventory: Seq<InventoryRecord>,
    upgrades: Seq<UpgradeRecord>,
) -> GameModel {
    GameModel {
        coins: player.coins as u64,
        run_earnings: player.run_earnings as u64,
        rebirth_tokens: player.rebirth_tokens,
        rebirth_count: player.rebirth_count,
        rows: player.rows,
        cols: player.cols,
        selected_crop: player.selected_crop as usize,
        tiles: placed_tiles(tiles, tiles.len(), player.rows, player.cols),
        seeds: stocked(inventory, inventory.len()).0,
        produce: stocked(inventory, inventory.len()).1,
        upgrades: equipped(upgrades, upgrades.len()),
        last_seen_utc: player.last_seen_utc,
    }
}

/// A farm as a save made at `now_utc` records it: the same farm, last seen then.
pub open spec fn stamped(g: GameModel, now_utc: i64) -> GameModel {
    GameModel {
        coins: g.coins,
        run_earnings: g.run_earnings,
        rebirth_tokens: g.rebirth_tokens,
        rebirth_count: g.rebirth_count,
        rows: g.rows,
        cols: g.cols,
        selected_crop: g.selected_crop,
        tiles: g.tiles,
        seeds: g.seeds,
        produce: g.produce,
        upgrades: g.upgrades,
        last_seen_utc: now_utc,
    }
}

proof fn lemma_placed_len(records: Seq<TileRecord>, n: nat, rows: u32, cols: u32)
    ensures
        placed_tiles(records, n, rows, cols).len() == rows * cols,
    decreases n,
{
    if n > 0 && n <= records.len() {
        lemma_placed_len(records, (n - 1) as nat, rows, cols);
        let rec = records[n - 1];
        if tile_record_ok(rec, rows, cols) {
            assert(rec.row * cols + rec.col < rows * cols) by (nonlinear_arith)
                requires
                    rec.row < rows,
                    rec.col < cols,
            ;
        }
    }
}

fn decode_tile_record(rec: &TileRecord) -> (res: Option<TileState>)
    ensures
        res == decode_tile(*rec),
{
    proof {
        reveal_strlit("untilled");
        reveal_strlit("tilled");
        reveal_strlit("planted");
    }
    let untilled = owned("untilled");
    let tilled = owned("tilled");
    let planted = owned("planted");
    if rec.state == untilled && rec.crop_id.is_none() {
        Some(TileState::Untilled)
    } else if rec.state == tilled && rec.crop_id.is_none() {
        Some(TileState::Tilled)
    } else if rec.state == planted {
        match &rec.crop_id {
            Some(id) => Some(TileState::Planted { crop_id: id.clone(), progress_ms: rec.progress_ms }),
            None => None,
        }
    } else {
        None
    }
}

impl GameState {
    /// Rebuilds a farm from a save's records and checks it against the
    /// catalogs. Coins and earnings must not be negative; every tile row must
    /// lie on the field and name a valid state (the first that does not is
    /// refused); every inventory row must be of seeds or produce.
    pub fn from_saved(
        player: SavedPlayer,
        tiles: Vec<TileRecord>,
        inventory: Vec<InventoryRecord>,
        upgrades: Vec<UpgradeRecord>,
        catalog: &CropCatalog,
        upgrade_catalog: &UpgradeCatalog,
    ) -> (res: Result<GameState, StorageError>)
        ensures
            player.coins < 0 ==> (res matches Err(StorageError::NumericOverflow(f)) && f@ == "coins"@),
            player.coins >= 0 && player.run_earnings < 0 ==> (res matches Err(StorageError::NumericOverflow(f))
                && f@ == "run_earnings"@),
            player.coins >= 0 && player.run_earnings >= 0 && player.rows * player.cols > u32::MAX ==> res
                == Err::<GameState, StorageError>(StorageError::InvalidGame(GameError::InvalidDimensions)),
            player.coins >= 0 && player.run_earnings >= 0 && player.rows * player.cols <= u32::MAX ==> ({
                if exists|i: int| is_first_bad_tile(tiles@, player.rows, player.cols, i) {
                    let i = choose|i: int| is_first_bad_tile(tiles@, player.rows, player.cols, i);
                    if tiles@[i].row < player.rows && tiles@[i].col < player.cols {
                        res == Err::<GameState, StorageError>(StorageError::InvalidTileState(tiles@[i].state))
                    } else {
                        res == Err::<GameState, StorageError>(StorageError::InvalidGame(GameError::InvalidDimensions))
                    }
                } else if exists|i: int| is_first_bad_item(inventory@, i) {
                    let i = choose|i: int| is_first_bad_item(inventory@, i);
                    res == Err::<GameState, StorageError>(StorageError::InvalidTileState(inventory@[i].kind))
                } else {
                    let g = restored(player, tiles@, inventory@, upgrades@);
                    match check_game(g, catalog.crops@, upgrade_catalog.upgrades@) {
                        Ok(()) => res matches Ok(s) && s@ == g,
                        Err(e) => res matches Err(StorageError::InvalidGame(ge)) && ge@ == e,
                    }
                }
            }),
    {
        if player.coins < 0 {
            return Err(StorageError::NumericOverflow(owned("coins")));
        }
        if player.run_earnings < 0 {
            return Err(StorageError::NumericOverflow(owned("run_earnings")));
        }
        let rows = player.rows;
        let cols = player.cols;
        proof {
            assert(rows * cols <= u32::MAX * u32::MAX) by (nonlinear_arith)
                requires
                    rows <= u32::MAX,
                    cols <= u32::MAX,
            ;
        }
        if rows as u64 * cols as u64 > u32::MAX as u64 {
            return Err(StorageError::InvalidGame(GameError::InvalidDimensions));
        }
        let mut field: Vec<TileState> = Vec::new();
        let mut k: u32 = 0;
        while k < rows * cols
            invariant
                rows * cols <= u32::MAX,
                k <= rows * cols,
                field@ == Seq::new(k as nat, |i: int| TileState::Untilled),
            decreases rows * cols - k,
        {
            field.push(TileState::Untilled);
            k = k + 1;
            assert(field@ =~= Seq::new(k as nat, |i: int| TileState::Untilled));
        }
        let ghost recs = tiles@;
        let n = tiles.len();
        let mut i: usize = 0;
        while i < n
            invariant
                recs == tiles@,
                n == recs.len(),
                player.coins >= 0,
                player.run_earnings >= 0,
                rows == player.rows,
                cols == player.cols,
                rows * cols <= u32::MAX,
                i <= n,
                forall|j: int| 0 <= j < i ==> tile_record_ok(#[trigger] recs[j], rows, cols),
                field@ == placed_tiles(recs, i as nat, rows, cols),
            decreases n - i,
        {
            proof {
                lemma_placed_len(recs, i as nat, rows, cols);
            }
            let rec = &tiles[i];
            if rec.row >= rows || rec.col >= cols {
                proof {
                    assert(is_first_bad_tile(recs, rows, cols, i as int));
                    lemma_first_bad_tile_unique(recs, rows, cols, i as int);
                }
                return Err(StorageError::InvalidGame(GameError::InvalidDimensions));
            }
            let tile = match decode_tile_record(rec) {
                Some(tile) => tile,
                None => {
                    proof {
                        assert(is_first_bad_tile(recs, rows, cols, i as int));
                        lemma_first_bad_tile_unique(recs, rows, cols, i as int);
                    }
                    return Err(StorageError::InvalidTileState(rec.state.clone()));
                },
            };
            proof {
                assert(rec.row * cols + rec.col < rows * cols) by (nonlinear_arith)
                    requires
                        rec.row < rows,
                        rec.col < cols,
                ;
            }
            field.set((rec.row * cols + rec.col) as usize, tile);
            i = i + 1;
        }
        let ghost items = inventory@;
        let mut seeds: TextMap<u32> = TextMap::new();
        let mut produce: TextMap<u32> = TextMap::new();
        let m = inventory.len();
        let mut i: usize = 0;
        while i < m
            invariant
                items == inventory@,
                m == items.len(),
                player.coins >= 0,
                player.run_earnings >= 0,
                recs == tiles@,
                rows == player.rows,
                cols == player.cols,
                !exists|x: int| is_first_bad_tile(recs, rows, cols, x),
                rows * cols <= u32::MAX,
                i <= m,
                forall|j: int| 0 <= j < i ==> inventory_record_ok(#[trigger] items[j]),
                (seeds@, produce@) == stocked(items, i as nat),
            decreases m - i,
        {
            let rec = &inventory[i];
            proof {
                reveal_strlit("seed");
                reveal_strlit("produce");
            }
            let seed_kind = owned("seed");
            let produce_kind = owned("produce");
            if rec.kind == seed_kind {
                seeds.insert(rec.id.clone(), rec.quantity);
            } else if rec.kind == produce_kind {
                produce.insert(rec.id.clone(), rec.quantity);
            } else {
                proof {
                    assert(is_first_bad_item(items, i as int));
                    let k = choose|k: int| is_first_bad_item(items, k);
                    if k < i {
                        assert(inventory_record_ok(items[k]));
                    } else if k > i {
                        assert(inventory_record_ok(items[i as int]));
                    }
                }
                return Err(StorageError::InvalidTileState(rec.kind.clone()));
            }
            i = i + 1;
        }
        let ghost machine_records = upgrades@;
        let mut machines: TextMap<UpgradeState> = TextMap::new();
        let u = upgrades.len();
        let mut i: usize = 0;
        while i < u
            invariant
                machine_records == upgrades@,
                u == machine_records.len(),
                i <= u,
                machines@ == equipped(machine_records, i as nat),
            decreases u - i,
        {
            let rec = &upgrades[i];
            machines.insert(rec.id.clone(), UpgradeState { level: rec.level, elapsed_ms: rec.elapsed_ms });
            i = i + 1;
        }
        let state = GameState {
            coins: player.coins as u64,
            run_earnings: player.run_earnings as u64,
            rebirth_tokens: player.rebirth_tokens,
            rebirth_count: player.rebirth_count,
            rows,
            cols,
            selected_crop: player.selected_crop as usize,
            tiles: field,
            seeds,
            produce,
            upgrades: machines,
            last_seen_utc: player.last_seen_utc,
        };
        proof {
            assert(!exists|x: int| is_first_bad_tile(recs, rows, cols, x));
            assert(!exists|x: int| is_first_bad_item(items, x));
            assert(state@ == restored(player, tiles@, inventory@, upgrades@));
        }
        match state.validate(catalog, upgrade_catalog) {
            Ok(()) => Ok(state),
            Err(e) => Err(StorageError::InvalidGame(e)),
        }
    }
}

proof fn lemma_first_bad_tile_unique(records: Seq<TileRecord>, rows: u32, cols: u32, i: int)
    requires
        is_first_bad_tile(records, rows, cols, i),
    ensures
        (choose|k: int| is_first_bad_tile(records, rows, cols, k)) == i,
{
    let k = choose|k: int| is_first_bad_tile(records, rows, cols, k);
    if k < i {
        assert(tile_record_ok(records[k], rows, cols));
    } else if k > i {
        assert(tile_record_ok(records[i], rows, cols));
    }
}

} // verus!
