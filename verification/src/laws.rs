//! Properties of the game that span several operations.
use vstd::prelude::*;

use crate::data::{
    crop_ids, lemma_first_match_none, lookup_crop, lookup_upgrade, upgrade_ids, CropDefinition, UpgradeDefinition,
    UpgradeKind,
};
use crate::game::{
    apply_elapsed_step, automation_step, buy_column_safe, buy_column_step, buy_row_safe, buy_row_step, buy_seed_step,
    buy_upgrade_step, check_game, combined_multiplier_of, dims_match, first_tile, growth_multiplier_of, growth_of, growth_stage_of, harvest_step, is_first_tile, remaining_seconds,
    is_first_unknown_tile, is_least_unknown_key, machine_timer, new_game, rebirth_step, ripe_pred, run_cycles, run_machines,
    select_next_of, select_previous_of, selected_crop_of, selected_position, sell_step, tile_index, tile_known, tilled_pred, unknown_key, untilled_pred,
    upgrade_state_of, use_tile_step, widen, count_of, unchanged_with, GameModel, GameState, TileState, UpgradeState,
    ACTIVE_GROWTH_MULTIPLIER, MULTIPLIER_ONE, STARTING_SIZE,
};
use crate::keyed::{lemma_pairs_map_take, lemma_pairs_view, pairs_map, sorted_pairs};
use crate::session::{key_action, key_safe, key_step, mouse_safe, mouse_step, tick_step, AppModel, Key, MouseInput};
use crate::storage::{
    backup_path_of, decode_tile, equipped, fits_i64, inventory_record_ok, is_first_bad_item, is_first_bad_tile, placed_tiles,
    read_back, record_matches, restored, stamped, stocked, tile_record_matches, tile_record_ok, SaveRecord,
};
use crate::text::{decimal, digit_char, lemma_text_less_irreflexive, lemma_text_less_transitive, signed_decimal, text_less};

verus! {

/// A field of `rows` full rows, widened by one column: each old tile keeps its
/// row and column, and each row ends in a new untilled tile.
pub proof fn lemma_widen_full_rows(t: Seq<TileState>, rows: int, cols: int)
    requires
        rows >= 0,
        cols > 0,
        t.len() == rows * cols,
    ensures
        widen(t, cols as nat).len() == rows * (cols + 1),
        forall|r: int, c: int|
            0 <= r < rows && 0 <= c < cols ==> #[trigger] widen(t, cols as nat)[r * (cols + 1) + c] == t[r * cols + c],
        forall|r: int| 0 <= r < rows ==> #[trigger] widen(t, cols as nat)[r * (cols + 1) + cols] == TileState::Untilled,
    decreases rows,
{
    let w = widen(t, cols as nat);
    if rows == 0 {
        assert(t.len() == 0) by (nonlinear_arith)
            requires
                t.len() == rows * cols,
                rows == 0,
        ;
    } else if rows == 1 {
        assert(t.len() == cols) by (nonlinear_arith)
            requires
                t.len() == rows * cols,
                rows == 1,
        ;
        assert forall|r: int, c: int| 0 <= r < rows && 0 <= c < cols implies #[trigger] w[r * (cols + 1) + c] == t[r
            * cols + c] by {
            assert(r == 0);
            assert(r * (cols + 1) + c == c && r * cols + c == c) by (nonlinear_arith)
                requires
                    r == 0,
            ;
        }
        assert forall|r: int| 0 <= r < rows implies #[trigger] w[r * (cols + 1) + cols] == TileState::Untilled by {
            assert(r * (cols + 1) + cols == cols) by (nonlinear_arith)
                requires
                    r == 0,
            ;
        }
        assert(rows * (cols + 1) == cols + 1) by (nonlinear_arith)
            requires
                rows == 1,
        ;
    } else {
        let rest = t.skip(cols);
        assert(t.len() > cols) by (nonlinear_arith)
            requires
                t.len() == rows * cols,
                rows >= 2,
                cols > 0,
        ;
        assert(rest.len() == (rows - 1) * cols) by (nonlinear_arith)
            requires
                rest.len() == t.len() - cols,
                t.len() == rows * cols,
        ;
        lemma_widen_full_rows(rest, rows - 1, cols);
        let head = t.take(cols).push(TileState::Untilled);
        let wr = widen(rest, cols as nat);
        assert(w == head + wr);
        assert(rows * (cols + 1) == (cols + 1) + (rows - 1) * (cols + 1)) by (nonlinear_arith);
        assert forall|r: int, c: int| 0 <= r < rows && 0 <= c < cols implies #[trigger] w[r * (cols + 1) + c] == t[r
            * cols + c] by {
            if r == 0 {
                assert(r * (cols + 1) + c == c && r * cols + c == c) by (nonlinear_arith)
                    requires
                        r == 0,
                ;
            } else {
                assert(r * (cols + 1) + c == (cols + 1) + ((r - 1) * (cols + 1) + c)) by (nonlinear_arith);
                assert(r * cols + c == cols + ((r - 1) * cols + c)) by (nonlinear_arith);
                assert(0 <= (r - 1) * (cols + 1) + c) by (nonlinear_arith)
                    requires
                        r >= 1,
                        c >= 0,
                        cols > 0,
                ;
                let i = (r - 1) * (cols + 1) + c;
                let j = (r - 1) * cols + c;
                assert((r - 1) * (cols + 1) + (cols + 1) == r * (cols + 1)) by (nonlinear_arith);
                assert(r * (cols + 1) <= (rows - 1) * (cols + 1)) by (nonlinear_arith)
                    requires
                        r <= rows - 1,
                        cols + 1 > 0,
                ;
                assert(0 <= i);
                assert(0 <= j < (rows - 1) * cols) by (nonlinear_arith)
                    requires
                        j == (r - 1) * cols + c,
                        1 <= r < rows,
                        0 <= c < cols,
                ;
                assert(wr[i] == rest[j]);
                assert(w[(cols + 1) + i] == wr[i]);
                assert(rest[j] == t[cols + j]);
            }
        }
        assert forall|r: int| 0 <= r < rows implies #[trigger] w[r * (cols + 1) + cols] == TileState::Untilled by {
            if r == 0 {
                assert(r * (cols + 1) + cols == cols) by (nonlinear_arith)
                    requires
                        r == 0,
                ;
            } else {
                assert(r * (cols + 1) + cols == (cols + 1) + ((r - 1) * (cols + 1) + cols)) by (nonlinear_arith);
                let i = (r - 1) * (cols + 1) + cols;
                assert(0 <= i < (rows - 1) * (cols + 1)) by (nonlinear_arith)
                    requires
                        i == (r - 1) * (cols + 1) + cols,
                        1 <= r < rows,
                        cols > 0,
                ;
                assert(wr[i] == TileState::Untilled);
                assert(w[(cols + 1) + i] == wr[i]);
            }
        }
    }
}

/// Buying a row keeps every tile at its row and column, and adds a row of
/// untilled soil below the field.
pub proof fn law_buying_a_row_keeps_tiles(g: GameModel)
    requires
        dims_match(g),
        buy_row_safe(g),
    ensures
        ({
            let (h, outcome) = buy_row_step(g);
            &&& !outcome.changed ==> h == g
            &&& outcome.changed ==> {
                &&& dims_match(h)
                &&& h.rows == g.rows + 1 && h.cols == g.cols
                &&& forall|r: int, c: int|
                    0 <= r < g.rows && 0 <= c < g.cols ==> #[trigger] h.tiles[r * h.cols + c] == g.tiles[r * g.cols
                        + c]
                &&& forall|c: int| 0 <= c < g.cols ==> #[trigger] h.tiles[g.rows * h.cols + c] == TileState::Untilled
            }
        }),
{
    let (h, outcome) = buy_row_step(g);
    if outcome.changed {
        assert((g.rows + 1) * g.cols == g.rows * g.cols + g.cols) by (nonlinear_arith);
        assert forall|r: int, c: int| 0 <= r < g.rows && 0 <= c < g.cols implies #[trigger] h.tiles[r * h.cols + c]
            == g.tiles[r * g.cols + c] by {
            assert(r * g.cols + c < g.rows * g.cols) by (nonlinear_arith)
                requires
                    0 <= r < g.rows,
                    0 <= c < g.cols,
            ;
            assert(0 <= r * g.cols + c) by (nonlinear_arith)
                requires
                    0 <= r,
                    0 <= c,
                    g.cols >= 0,
            ;
        }
    }
}

/// Buying a column keeps every tile at its row and column, and adds an
/// untilled tile at the end of every row.
pub proof fn law_buying_a_column_keeps_tiles(g: GameModel)
    requires
        dims_match(g),
        buy_column_safe(g),
    ensures
        ({
            let (h, outcome) = buy_column_step(g);
            &&& !outcome.changed ==> h == g
            &&& outcome.changed ==> {
                &&& dims_match(h)
                &&& h.rows == g.rows && h.cols == g.cols + 1
                &&& forall|r: int, c: int|
                    0 <= r < g.rows && 0 <= c < g.cols ==> #[trigger] h.tiles[r * h.cols + c] == g.tiles[r * g.cols
                        + c]
                &&& forall|r: int| 0 <= r < g.rows ==> #[trigger] h.tiles[r * h.cols + g.cols] == TileState::Untilled
            }
        }),
{
    let (h, outcome) = buy_column_step(g);
    if outcome.changed {
        lemma_widen_full_rows(g.tiles, g.rows as int, g.cols as int);
    }
}

/// A tile's position lies inside a field whose tiles match its dimensions.
proof fn lemma_tile_index_in_field(g: GameModel, row: u32, col: u32)
    requires
        dims_match(g),
        tile_index(g, row, col) is Some,
    ensures
        0 <= tile_index(g, row, col)->0 < g.tiles.len(),
{
    assert(row * g.cols + col < g.rows * g.cols) by (nonlinear_arith)
        requires
            row < g.rows,
            col < g.cols,
    ;
}

/// Working a tile, buying seeds or machines, selling, selecting a crop, and
/// letting time pass keep the tiles matching the field's dimensions.
pub proof fn law_actions_keep_dimensions(
    g: GameModel,
    crops: Seq<CropDefinition>,
    ups: Seq<UpgradeDefinition>,
    row: u32,
    col: u32,
    index: int,
    elapsed_ms: u64,
    multiplier: u64,
)
    requires
        dims_match(g),
    ensures
        dims_match(use_tile_step(g, row, col, crops).0),
        dims_match(buy_seed_step(g, crops).0),
        dims_match(buy_upgrade_step(g, index, ups).0),
        dims_match(sell_step(g, crops).0),
        dims_match(select_previous_of(g, crops)),
        dims_match(select_next_of(g, crops)),
        dims_match(apply_elapsed_step(g, elapsed_ms, multiplier)),
        dims_match(rebirth_step(g, crops).0),
{
    if tile_index(g, row, col) is Some {
        lemma_tile_index_in_field(g, row, col);
    }
    assert(STARTING_SIZE * STARTING_SIZE == 9);
}

proof fn lemma_step_keeps_dimensions(g: GameModel, kind: UpgradeKind, crops: Seq<CropDefinition>)
    requires
        dims_match(g),
    ensures
        dims_match(automation_step(g, kind, crops).0),
        automation_step(g, kind, crops).0.rows == g.rows,
        automation_step(g, kind, crops).0.cols == g.cols,
{
    let p = first_tile(g.tiles, untilled_pred());
    let q = first_tile(g.tiles, tilled_pred());
    let r = first_tile(g.tiles, ripe_pred(crops));
    if p is Some {
        let i = choose|i: int| is_first_tile(g.tiles, untilled_pred(), i);
        assert(is_first_tile(g.tiles, untilled_pred(), i));
    }
    if q is Some {
        let i = choose|i: int| is_first_tile(g.tiles, tilled_pred(), i);
        assert(is_first_tile(g.tiles, tilled_pred(), i));
    }
    if r is Some {
        let i = choose|i: int| is_first_tile(g.tiles, ripe_pred(crops), i);
        assert(is_first_tile(g.tiles, ripe_pred(crops), i));
    }
    law_actions_keep_dimensions(g, crops, Seq::empty(), 0, 0, 0, 0, 0);
}

proof fn lemma_cycles_keep_dimensions(g: GameModel, kind: UpgradeKind, crops: Seq<CropDefinition>, n: nat)
    requires
        dims_match(g),
    ensures
        dims_match(run_cycles(g, kind, crops, n).0),
        run_cycles(g, kind, crops, n).0.rows == g.rows,
        run_cycles(g, kind, crops, n).0.cols == g.cols,
    decreases n,
{
    if n > 0 {
        lemma_step_keeps_dimensions(g, kind, crops);
        let (g1, message) = automation_step(g, kind, crops);
        if message is Some {
            lemma_cycles_keep_dimensions(g1, kind, crops, (n - 1) as nat);
        }
    }
}

/// The machinery keeps the field's dimensions, and the tiles matching them.
pub proof fn law_machinery_keeps_dimensions(
    g: GameModel,
    ups: Seq<UpgradeDefinition>,
    crops: Seq<CropDefinition>,
    elapsed_ms: u64,
    n: nat,
)
    requires
        dims_match(g),
    ensures
        dims_match(run_machines(g, ups, crops, elapsed_ms, n).0),
        run_machines(g, ups, crops, elapsed_ms, n).0.rows == g.rows,
        run_machines(g, ups, crops, elapsed_ms, n).0.cols == g.cols,
    decreases n,
{
    if n > 0 && n <= ups.len() {
        law_machinery_keeps_dimensions(g, ups, crops, elapsed_ms, (n - 1) as nat);
        let (g1, messages) = run_machines(g, ups, crops, elapsed_ms, (n - 1) as nat);
        let u = ups[n - 1];
        let state = upgrade_state_of(g1.upgrades, u.id@);
        if !(state.level == 0 || u.kind == UpgradeKind::GrowthBoost) {
            let (timer, cycles) = machine_timer(state, u.interval_seconds, elapsed_ms);
            let g2 = GameModel { upgrades: g1.upgrades.insert(u.id@, timer), ..g1 };
            lemma_cycles_keep_dimensions(g2, u.kind, crops, cycles);
        }
    }
}

// ---------------------------------------------------------------------------
// Saving and reading back

/// The tile row that a save holds at a row-major position lies on the field,
/// names that position, and stands for the farm's tile there.
proof fn lemma_saved_tile_at(r: SaveRecord, state: GameState, now_utc: i64, k: int)
    requires
        record_matches(r, state, now_utc),
        0 <= k < state.rows * state.cols,
    ensures
        r.tiles@[k].row * state.cols + r.tiles@[k].col == k,
        tile_record_ok(r.tiles@[k], state.rows, state.cols),
        decode_tile(r.tiles@[k]) == Some(state@.tiles[k]),
{
    let rows = state.rows;
    let cols = state.cols;
    let q = k / (cols as int);
    let m = k % (cols as int);
    assert(cols > 0 && k == q * cols + m && 0 <= q < rows && 0 <= m < cols) by (nonlinear_arith)
        requires
            0 <= k < rows * cols,
            q == k / (cols as int),
            m == k % (cols as int),
    ;
    let row = q as u32;
    let col = m as u32;
    assert(row == q && col == m);
    assert(tile_record_matches(r.tiles@[row * cols + col], state@.tiles[row * cols + col], row, col));
    reveal_strlit("untilled");
    reveal_strlit("tilled");
    reveal_strlit("planted");
    let rec = r.tiles@[k];
    match state@.tiles[k] {
        TileState::Untilled => {
            assert(rec.state@ == "untilled"@ && rec.crop_id is None);
        },
        TileState::Tilled => {
            assert(rec.state@ == "tilled"@ && rec.crop_id is None);
            assert("tilled"@.len() != "untilled"@.len());
        },
        TileState::Planted { crop_id, progress_ms } => {
            assert(rec.state@ == "planted"@ && rec.crop_id == Some(crop_id));
            assert("planted"@.len() != "untilled"@.len() && "planted"@.len() != "tilled"@.len());
        },
    }
}

/// Placing the first `m` tile rows of a save gives the farm's first `m` tiles
/// on otherwise untilled soil.
proof fn lemma_saved_tiles_placed(r: SaveRecord, state: GameState, now_utc: i64, m: nat)
    requires
        record_matches(r, state, now_utc),
        m <= state.rows * state.cols,
    ensures
        placed_tiles(r.tiles@, m, state.rows, state.cols) == Seq::new(
            (state.rows * state.cols) as nat,
            |i: int| if i < m { state@.tiles[i] } else { TileState::Untilled },
        ),
    decreases m,
{
    let n = (state.rows * state.cols) as nat;
    if m == 0 {
        assert(placed_tiles(r.tiles@, m, state.rows, state.cols) =~= Seq::new(
            n,
            |i: int| if i < m { state@.tiles[i] } else { TileState::Untilled },
        ));
    } else {
        lemma_saved_tiles_placed(r, state, now_utc, (m - 1) as nat);
        lemma_saved_tile_at(r, state, now_utc, m - 1);
        assert(placed_tiles(r.tiles@, m, state.rows, state.cols) =~= Seq::new(
            n,
            |i: int| if i < m { state@.tiles[i] } else { TileState::Untilled },
        ));
    }
}

/// Reading the first `m` seed rows of a save stocks the farm's first `m` seed
/// entries and no produce.
proof fn lemma_saved_seeds_stocked(r: SaveRecord, state: GameState, now_utc: i64, m: nat)
    requires
        record_matches(r, state, now_utc),
        sorted_pairs(state.seeds.pairs()),
        m <= state.seeds.pairs().len(),
    ensures
        stocked(r.inventory@, m) == (pairs_map(state.seeds.pairs().take(m as int)), Map::<Seq<char>, u32>::empty()),
        forall|j: int| 0 <= j < m ==> inventory_record_ok(#[trigger] r.inventory@[j]),
    decreases m,
{
    let seeds = state.seeds.pairs();
    reveal_strlit("seed");
    if m == 0 {
        assert(pairs_map(seeds.take(0)) =~= Map::<Seq<char>, u32>::empty());
    } else {
        lemma_saved_seeds_stocked(r, state, now_utc, (m - 1) as nat);
        lemma_pairs_map_take(seeds, m - 1);
        let rec = r.inventory@[m - 1];
        assert(rec.kind@ == "seed"@ && rec.id@ == seeds[m - 1].0 && rec.quantity == seeds[m - 1].1);
    }
}

/// Reading all the seed rows and then the first `m` produce rows of a save
/// stocks the farm's seeds and its first `m` produce entries.
proof fn lemma_saved_produce_stocked(r: SaveRecord, state: GameState, now_utc: i64, m: nat)
    requires
        record_matches(r, state, now_utc),
        sorted_pairs(state.seeds.pairs()),
        sorted_pairs(state.produce.pairs()),
        m <= state.produce.pairs().len(),
    ensures
        stocked(r.inventory@, state.seeds.pairs().len() + m) == (
            pairs_map(state.seeds.pairs()),
            pairs_map(state.produce.pairs().take(m as int)),
        ),
        forall|j: int| 0 <= j < state.seeds.pairs().len() + m ==> inventory_record_ok(#[trigger] r.inventory@[j]),
    decreases m,
{
    let seeds = state.seeds.pairs();
    let produce = state.produce.pairs();
    reveal_strlit("seed");
    reveal_strlit("produce");
    if m == 0 {
        lemma_saved_seeds_stocked(r, state, now_utc, seeds.len());
        assert(seeds.take(seeds.len() as int) =~= seeds);
        assert(pairs_map(produce.take(0)) =~= Map::<Seq<char>, u32>::empty());
        assert(stocked(r.inventory@, seeds.len() + m) == stocked(r.inventory@, seeds.len()));
    } else {
        lemma_saved_produce_stocked(r, state, now_utc, (m - 1) as nat);
        lemma_pairs_map_take(produce, m - 1);
        let rec = r.inventory@[seeds.len() + (m - 1)];
        assert(rec.kind@ == "produce"@ && rec.id@ == produce[m - 1].0 && rec.quantity == produce[m - 1].1);
        assert("produce"@.len() != "seed"@.len());
        let (before_seeds, before_produce) = stocked(r.inventory@, (seeds.len() + m - 1) as nat);
        assert(stocked(r.inventory@, seeds.len() + m) == (before_seeds, before_produce.insert(rec.id@, rec.quantity)));
        assert forall|j: int| 0 <= j < seeds.len() + m implies inventory_record_ok(#[trigger] r.inventory@[j]) by {
            if j == seeds.len() + m - 1 {
                assert(r.inventory@[j] == rec);
            }
        }
    }
}

/// Reading the first `m` machine rows of a save equips the farm's first `m`
/// machines.
proof fn lemma_saved_machines_equipped(r: SaveRecord, state: GameState, now_utc: i64, m: nat)
    requires
        record_matches(r, state, now_utc),
        sorted_pairs(state.upgrades.pairs()),
        m <= state.upgrades.pairs().len(),
    ensures
        equipped(r.upgrades@, m) == pairs_map(state.upgrades.pairs().take(m as int)),
    decreases m,
{
    let ups = state.upgrades.pairs();
    if m == 0 {
        assert(pairs_map(ups.take(0)) =~= Map::<Seq<char>, UpgradeState>::empty());
    } else {
        lemma_saved_machines_equipped(r, state, now_utc, (m - 1) as nat);
        lemma_pairs_map_take(ups, m - 1);
        let rec = r.upgrades@[m - 1];
        assert(rec.id@ == ups[m - 1].0 && rec.level == ups[m - 1].1.level && rec.elapsed_ms == ups[m - 1].1.elapsed_ms);
    }
}

/// Saving a farm and reading the save back gives the same farm, last seen at
/// the time of the save: no tile or inventory row is refused, and the farm
/// rebuilt from the rows meets the catalogs' check exactly as the saved farm
/// does. (The selection must fit the 32-bit column it is read back from.)
pub proof fn law_saved_farm_reads_back(
    state: GameState,
    r: SaveRecord,
    now_utc: i64,
    crops: Seq<CropDefinition>,
    ups: Seq<UpgradeDefinition>,
)
    requires
        dims_match(state@),
        state.rows * state.cols <= u32::MAX,
        sorted_pairs(state.seeds.pairs()),
        sorted_pairs(state.produce.pairs()),
        sorted_pairs(state.upgrades.pairs()),
        fits_i64(state.coins as int),
        fits_i64(state.run_earnings as int),
        state.selected_crop <= u32::MAX,
        record_matches(r, state, now_utc),
    ensures
        read_back(r.player).coins >= 0,
        read_back(r.player).run_earnings >= 0,
        !exists|i: int| is_first_bad_tile(r.tiles@, state.rows, state.cols, i),
        !exists|i: int| is_first_bad_item(r.inventory@, i),
        restored(read_back(r.player), r.tiles@, r.inventory@, r.upgrades@) == stamped(state@, now_utc),
        check_game(restored(read_back(r.player), r.tiles@, r.inventory@, r.upgrades@), crops, ups) == check_game(
            state@,
            crops,
            ups,
        ),
{
    let g = state@;
    let p = read_back(r.player);
    let n = (state.rows * state.cols) as nat;
    assert forall|i: int| 0 <= i < r.tiles@.len() implies tile_record_ok(
        #[trigger] r.tiles@[i],
        state.rows,
        state.cols,
    ) by {
        lemma_saved_tile_at(r, state, now_utc, i);
    }
    lemma_saved_tiles_placed(r, state, now_utc, n);
    assert(placed_tiles(r.tiles@, r.tiles@.len(), p.rows, p.cols) =~= g.tiles);
    lemma_saved_produce_stocked(r, state, now_utc, state.produce.pairs().len());
    assert(state.produce.pairs().take(state.produce.pairs().len() as int) =~= state.produce.pairs());
    lemma_pairs_view(&state.seeds);
    lemma_pairs_view(&state.produce);
    lemma_saved_machines_equipped(r, state, now_utc, state.upgrades.pairs().len());
    assert(state.upgrades.pairs().take(state.upgrades.pairs().len() as int) =~= state.upgrades.pairs());
    lemma_pairs_view(&state.upgrades);
    let back = stamped(g, now_utc);
    assert(restored(p, r.tiles@, r.inventory@, r.upgrades@) == back);
    assert(back.tiles == g.tiles && back.upgrades == g.upgrades && back.selected_crop == g.selected_crop);
    assert(dims_match(back) == dims_match(g));
    assert(check_game(back, crops, ups) == check_game(g, crops, ups));
}

// ---------------------------------------------------------------------------
// Growth and selection

/// Time passing grows a crop by exactly the elapsed time at a multiplier of
/// one, and never by less at a larger multiplier: crops grow at least as fast
/// while the game is open (the active rate on top of the machinery's boost)
/// as while it is closed (the machinery's boost alone).
pub proof fn law_growth_follows_multiplier(elapsed_ms: u64, low: u64, high: u64, boost: u64)
    requires
        low <= high,
    ensures
        growth_of(elapsed_ms, MULTIPLIER_ONE) == elapsed_ms,
        growth_of(elapsed_ms, low) <= growth_of(elapsed_ms, high),
        growth_of(elapsed_ms, MULTIPLIER_ONE) <= growth_of(elapsed_ms, ACTIVE_GROWTH_MULTIPLIER),
        growth_of(elapsed_ms, boost) <= growth_of(
            elapsed_ms,
            combined_multiplier_of(ACTIVE_GROWTH_MULTIPLIER, boost),
        ),
{
    let active = combined_multiplier_of(ACTIVE_GROWTH_MULTIPLIER, boost);
    assert(boost <= 12_500 * boost / 10_000) by (nonlinear_arith);
    assert(boost <= active);
    assert(elapsed_ms * boost / 10_000 <= elapsed_ms * active / 10_000) by (nonlinear_arith)
        requires
            boost <= active,
    ;
    assert(elapsed_ms * 10_000 / 10_000 == elapsed_ms) by (nonlinear_arith);
    assert(elapsed_ms * low / 10_000 <= elapsed_ms * high / 10_000) by (nonlinear_arith)
        requires
            low <= high,
    ;
    assert(elapsed_ms * 10_000 / 10_000 <= elapsed_ms * 12_500 / 10_000) by (nonlinear_arith);
}

/// A crop's drawing stage never goes back as it grows, and it shows the last
/// stage exactly when the crop is ripe for harvest (for a crop that takes
/// some time to grow).
pub proof fn law_growth_stage_follows_progress(earlier_ms: u64, later_ms: u64, grow_seconds: u64)
    requires
        earlier_ms <= later_ms,
    ensures
        growth_stage_of(earlier_ms, grow_seconds) <= growth_stage_of(later_ms, grow_seconds),
        growth_stage_of(later_ms, grow_seconds) <= 3,
        grow_seconds > 0 ==> (growth_stage_of(later_ms, grow_seconds) == 3 <==> later_ms >= grow_seconds * 1000),
{
    assert(100 * earlier_ms <= 100 * later_ms);
}

/// Selecting the next crop and then the previous one comes back to the crop
/// selected before, and so does the other order.
pub proof fn law_crop_selection_steps_undo(g: GameModel, crops: Seq<CropDefinition>)
    requires
        g.selected_crop < crops.len() <= usize::MAX,
    ensures
        select_previous_of(select_next_of(g, crops), crops) == g,
        select_next_of(select_previous_of(g, crops), crops) == g,
{
    let n = crops.len() as int;
    let s = g.selected_crop as int;
    if s + 1 < n {
        assert((s + 1) % n == s + 1) by (nonlinear_arith)
            requires
                0 <= s + 1 < n,
        ;
    } else {
        assert((s + 1) % n == 0) by (nonlinear_arith)
            requires
                s + 1 == n,
                n > 0,
        ;
    }
    if s == 0 {
        assert(((n - 1) + 1) % n == 0) by (nonlinear_arith)
            requires
                n > 0,
        ;
    } else {
        assert(((s - 1) + 1) % n == s) by (nonlinear_arith)
            requires
                0 < s < n,
        ;
    }
}

// ---------------------------------------------------------------------------
// The session

proof fn lemma_key_keeps_cursor(a: AppModel, key: Key, width: u16, height: u16)
    requires
        a.cursor_row < a.game.rows,
        a.cursor_col < a.game.cols,
        key_safe(a, key, width, height),
    ensures
        key_step(a, key, width, height).0.cursor_row < key_step(a, key, width, height).0.game.rows,
        key_step(a, key, width, height).0.cursor_col < key_step(a, key, width, height).0.game.cols,
{
    assert(STARTING_SIZE == 3);
}

proof fn lemma_mouse_keeps_cursor(a: AppModel, mouse: MouseInput, width: u16, height: u16)
    requires
        a.cursor_row < a.game.rows,
        a.cursor_col < a.game.cols,
        mouse_safe(a, mouse, width, height),
    ensures
        mouse_step(a, mouse, width, height).0.cursor_row < mouse_step(a, mouse, width, height).0.game.rows,
        mouse_step(a, mouse, width, height).0.cursor_col < mouse_step(a, mouse, width, height).0.game.cols,
{
    assert(STARTING_SIZE == 3);
}

proof fn lemma_tick_keeps_cursor(a: AppModel, elapsed_ms: u64)
    requires
        dims_match(a.game),
        a.cursor_row < a.game.rows,
        a.cursor_col < a.game.cols,
    ensures
        tick_step(a, elapsed_ms).0.cursor_row < tick_step(a, elapsed_ms).0.game.rows,
        tick_step(a, elapsed_ms).0.cursor_col < tick_step(a, elapsed_ms).0.game.cols,
{
    let multiplier = combined_multiplier_of(
        ACTIVE_GROWTH_MULTIPLIER,
        growth_multiplier_of(a.game, a.ups),
    );
    let grown = apply_elapsed_step(a.game, elapsed_ms, multiplier);
    law_actions_keep_dimensions(a.game, a.crops, a.ups, 0, 0, 0, elapsed_ms, multiplier);
    law_machinery_keeps_dimensions(grown, a.ups, a.crops, elapsed_ms, a.ups.len());
}

/// Key presses, mouse events and the clock keep the cursor on the field:
/// moving stops at the field's edges, clicks only pick tiles of the field,
/// buying land only grows it, and a rebirth puts the cursor back at the first
/// tile of the new farm.
pub proof fn law_cursor_stays_on_field(
    a: AppModel,
    key: Key,
    mouse: MouseInput,
    width: u16,
    height: u16,
    elapsed_ms: u64,
)
    requires
        dims_match(a.game),
        a.cursor_row < a.game.rows,
        a.cursor_col < a.game.cols,
    ensures
        key_safe(a, key, width, height) ==> ({
            let b = key_step(a, key, width, height).0;
            b.cursor_row < b.game.rows && b.cursor_col < b.game.cols
        }),
        mouse_safe(a, mouse, width, height) ==> ({
            let b = mouse_step(a, mouse, width, height).0;
            b.cursor_row < b.game.rows && b.cursor_col < b.game.cols
        }),
        ({
            let b = tick_step(a, elapsed_ms).0;
            b.cursor_row < b.game.rows && b.cursor_col < b.game.cols
        }),
{
    if key_safe(a, key, width, height) {
        lemma_key_keeps_cursor(a, key, width, height);
    }
    if mouse_safe(a, mouse, width, height) {
        lemma_mouse_keeps_cursor(a, mouse, width, height);
    }
    lemma_tick_keeps_cursor(a, elapsed_ms);
}

// ---------------------------------------------------------------------------
// A farm stays valid

/// What the catalogs' check asks of a farm, stated plainly: the tiles fill the
/// field, the selection is a catalog crop, every tile's crop is in the
/// catalog, and so is every machine held.
pub open spec fn sound_game(g: GameModel, crops: Seq<CropDefinition>, ups: Seq<UpgradeDefinition>) -> bool {
    &&& dims_match(g)
    &&& g.selected_crop < crops.len()
    &&& forall|i: int| 0 <= i < g.tiles.len() ==> tile_known(#[trigger] g.tiles[i], crops)
    &&& forall|k: Seq<char>| #[trigger] g.upgrades.contains_key(k) ==> lookup_upgrade(ups, k) is Some
}

/// A crop of the catalog is found by its id.
proof fn lemma_crop_found(crops: Seq<CropDefinition>, p: int)
    requires
        0 <= p < crops.len(),
    ensures
        lookup_crop(crops, crops[p].id@) is Some,
{
    lemma_first_match_none(crop_ids(crops), crops[p].id@);
    assert(crop_ids(crops)[p] == crops[p].id@);
}

/// A machine of the catalog is found by its id.
proof fn lemma_upgrade_found(ups: Seq<UpgradeDefinition>, p: int)
    requires
        0 <= p < ups.len(),
    ensures
        lookup_upgrade(ups, ups[p].id@) is Some,
{
    lemma_first_match_none(upgrade_ids(ups), ups[p].id@);
    assert(upgrade_ids(ups)[p] == ups[p].id@);
}

/// When some tile names an unknown crop, one of them comes first.
proof fn lemma_first_unknown_tile_exists(tiles: Seq<TileState>, crops: Seq<CropDefinition>, i: int)
    requires
        0 <= i < tiles.len(),
        !tile_known(tiles[i], crops),
    ensures
        exists|k: int| is_first_unknown_tile(tiles, crops, k),
    decreases i,
{
    if exists|j: int| 0 <= j < i && !tile_known(#[trigger] tiles[j], crops) {
        let j = choose|j: int| 0 <= j < i && !tile_known(#[trigger] tiles[j], crops);
        lemma_first_unknown_tile_exists(tiles, crops, j);
    } else {
        assert(is_first_unknown_tile(tiles, crops, i));
    }
}

/// Among finitely many texts, one comes first in text order.
proof fn lemma_least_text_exists(s: Set<Seq<char>>)
    requires
        s.finite(),
        s.len() > 0,
    ensures
        exists|k: Seq<char>| #[trigger] s.contains(k) && forall|j: Seq<char>| s.contains(j) ==> !text_less(j, k),
    decreases s.len(),
{
    let x = s.choose();
    let rest = s.remove(x);
    if rest.len() == 0 {
        assert forall|j: Seq<char>| s.contains(j) implies !text_less(j, x) by {
            if j != x {
                assert(rest.contains(j));
            }
            lemma_text_less_irreflexive(x);
        }
        assert(s.contains(x));
    } else {
        lemma_least_text_exists(rest);
        let m = choose|k: Seq<char>| #[trigger] rest.contains(k) && forall|j: Seq<char>| rest.contains(j) ==> !text_less(j, k);
        if text_less(x, m) {
            assert forall|j: Seq<char>| s.contains(j) implies !text_less(j, x) by {
                if j == x {
                    lemma_text_less_irreflexive(x);
                } else {
                    assert(rest.contains(j));
                    if text_less(j, x) {
                        lemma_text_less_transitive(j, x, m);
                    }
                }
            }
            assert(s.contains(x));
        } else {
            assert forall|j: Seq<char>| s.contains(j) implies !text_less(j, m) by {
                if j != x {
                    assert(rest.contains(j));
                }
            }
            assert(s.contains(m));
        }
    }
}

/// A farm that passes the catalogs' check meets the plain statement of it.
proof fn lemma_checked_game_is_sound(g: GameModel, crops: Seq<CropDefinition>, ups: Seq<UpgradeDefinition>)
    requires
        check_game(g, crops, ups) is Ok,
        g.upgrades.dom().finite(),
    ensures
        sound_game(g, crops, ups),
{
    assert forall|i: int| 0 <= i < g.tiles.len() implies tile_known(#[trigger] g.tiles[i], crops) by {
        if !tile_known(g.tiles[i], crops) {
            lemma_first_unknown_tile_exists(g.tiles, crops, i);
        }
    }
    assert forall|k: Seq<char>| #[trigger] g.upgrades.contains_key(k) implies lookup_upgrade(ups, k) is Some by {
        if lookup_upgrade(ups, k) is None {
            let unknown = g.upgrades.dom().filter(|j: Seq<char>| lookup_upgrade(ups, j) is None);
            assert(unknown.contains(k));
            lemma_least_text_exists(unknown);
            let m = choose|m: Seq<char>| #[trigger] unknown.contains(m) && forall|j: Seq<char>|
                unknown.contains(j) ==> !text_less(j, m);
            assert forall|j: Seq<char>| #[trigger] unknown_key(g.upgrades, ups, j) implies !text_less(j, m) by {
                assert(unknown.contains(j));
            }
            assert(is_least_unknown_key(g.upgrades, ups, m));
        }
    }
}

/// A farm that meets the plain statement of the catalogs' check passes it.
proof fn lemma_sound_game_checks(g: GameModel, crops: Seq<CropDefinition>, ups: Seq<UpgradeDefinition>)
    requires
        sound_game(g, crops, ups),
    ensures
        check_game(g, crops, ups) is Ok,
{
    assert(!exists|i: int| is_first_unknown_tile(g.tiles, crops, i));
    assert(!exists|k: Seq<char>| is_least_unknown_key(g.upgrades, ups, k));
}

/// The farm check accepts a farm exactly when its tiles fill the field, the
/// selection is a catalog crop, every planted crop is in the crop catalog and
/// every machine held is in the machinery catalog.
pub proof fn law_check_accepts_exactly_known_farms(
    g: GameModel,
    crops: Seq<CropDefinition>,
    ups: Seq<UpgradeDefinition>,
)
    requires
        g.upgrades.dom().finite(),
    ensures
        (check_game(g, crops, ups) is Ok) <==> sound_game(g, crops, ups),
{
    if check_game(g, crops, ups) is Ok {
        lemma_checked_game_is_sound(g, crops, ups);
    }
    if sound_game(g, crops, ups) {
        lemma_sound_game_checks(g, crops, ups);
    }
}

/// A widened field holds only the old tiles and untilled soil.
proof fn lemma_widen_known(t: Seq<TileState>, cols: nat, crops: Seq<CropDefinition>)
    requires
        forall|i: int| 0 <= i < t.len() ==> tile_known(#[trigger] t[i], crops),
    ensures
        forall|i: int| 0 <= i < widen(t, cols).len() ==> tile_known(#[trigger] widen(t, cols)[i], crops),
    decreases t.len(),
{
    if cols == 0 || t.len() == 0 {
    } else if t.len() <= cols {
    } else {
        let rest = t.skip(cols as int);
        assert forall|i: int| 0 <= i < rest.len() implies tile_known(#[trigger] rest[i], crops) by {
            assert(rest[i] == t[i + cols]);
        }
        lemma_widen_known(rest, cols, crops);
        let head = t.take(cols as int).push(TileState::Untilled);
        assert forall|i: int| 0 <= i < head.len() implies tile_known(#[trigger] head[i], crops) by {
            if i < cols {
                assert(head[i] == t[i]);
            }
        }
        assert(widen(t, cols) == head + widen(rest, cols));
    }
}

/// One run of a machine keeps a sound farm sound.
proof fn lemma_step_keeps_sound(g: GameModel, kind: UpgradeKind, crops: Seq<CropDefinition>, ups: Seq<UpgradeDefinition>)
    requires
        sound_game(g, crops, ups),
    ensures
        sound_game(automation_step(g, kind, crops).0, crops, ups),
{
    lemma_step_keeps_dimensions(g, kind, crops);
    lemma_crop_found(crops, selected_position(g, crops));
}

/// Runs of a machine keep a sound farm sound.
proof fn lemma_cycles_keep_sound(
    g: GameModel,
    kind: UpgradeKind,
    crops: Seq<CropDefinition>,
    ups: Seq<UpgradeDefinition>,
    n: nat,
)
    requires
        sound_game(g, crops, ups),
    ensures
        sound_game(run_cycles(g, kind, crops, n).0, crops, ups),
    decreases n,
{
    if n > 0 {
        lemma_step_keeps_sound(g, kind, crops, ups);
        let (g1, message) = automation_step(g, kind, crops);
        if message is Some {
            lemma_cycles_keep_sound(g1, kind, crops, ups, (n - 1) as nat);
        }
    }
}

/// The machines' turns keep a sound farm sound.
proof fn lemma_machines_keep_sound(
    g: GameModel,
    ups: Seq<UpgradeDefinition>,
    crops: Seq<CropDefinition>,
    elapsed_ms: u64,
    n: nat,
)
    requires
        sound_game(g, crops, ups),
    ensures
        sound_game(run_machines(g, ups, crops, elapsed_ms, n).0, crops, ups),
    decreases n,
{
    if n > 0 && n <= ups.len() {
        lemma_machines_keep_sound(g, ups, crops, elapsed_ms, (n - 1) as nat);
        let (g1, messages) = run_machines(g, ups, crops, elapsed_ms, (n - 1) as nat);
        let u = ups[n - 1];
        let state = upgrade_state_of(g1.upgrades, u.id@);
        if !(state.level == 0 || u.kind == UpgradeKind::GrowthBoost) {
            let (timer, cycles) = machine_timer(state, u.interval_seconds, elapsed_ms);
            let g2 = GameModel { upgrades: g1.upgrades.insert(u.id@, timer), ..g1 };
            lemma_upgrade_found(ups, n - 1);
            assert(sound_game(g2, crops, ups));
            lemma_cycles_keep_sound(g2, u.kind, crops, ups, cycles);
        }
    }
}

/// The player's actions keep a sound farm sound.
proof fn lemma_actions_keep_sound(
    g: GameModel,
    crops: Seq<CropDefinition>,
    ups: Seq<UpgradeDefinition>,
    row: u32,
    col: u32,
    index: int,
    elapsed_ms: u64,
    multiplier: u64,
)
    requires
        sound_game(g, crops, ups),
    ensures
        sound_game(use_tile_step(g, row, col, crops).0, crops, ups),
        sound_game(buy_seed_step(g, crops).0, crops, ups),
        sound_game(buy_upgrade_step(g, index, ups).0, crops, ups),
        sound_game(sell_step(g, crops).0, crops, ups),
        sound_game(select_previous_of(g, crops), crops, ups),
        sound_game(select_next_of(g, crops), crops, ups),
        sound_game(apply_elapsed_step(g, elapsed_ms, multiplier), crops, ups),
        sound_game(rebirth_step(g, crops).0, crops, ups),
        buy_row_safe(g) ==> sound_game(buy_row_step(g).0, crops, ups),
        buy_column_safe(g) ==> sound_game(buy_column_step(g).0, crops, ups),
{
    law_actions_keep_dimensions(g, crops, ups, row, col, index, elapsed_ms, multiplier);
    lemma_crop_found(crops, selected_position(g, crops));
    if let Some(i) = tile_index(g, row, col) {
        lemma_tile_index_in_field(g, row, col);
        let u = use_tile_step(g, row, col, crops).0;
        let planted = TileState::Planted { crop_id: selected_crop_of(g, crops).id, progress_ms: 0 };
        assert(tile_known(planted, crops));
        assert(tile_known(TileState::Tilled, crops));
        assert(u.tiles == g.tiles || u.tiles == g.tiles.update(i, TileState::Tilled) || u.tiles == g.tiles.update(
            i,
            planted,
        )) by {
            match g.tiles[i] {
                TileState::Untilled => {},
                TileState::Tilled => {},
                TileState::Planted { crop_id, progress_ms } => {
                    assert(u == harvest_step(g, i, crop_id@, progress_ms, crops).0);
                },
            }
        }
        assert forall|j: int| 0 <= j < u.tiles.len() implies tile_known(#[trigger] u.tiles[j], crops) by {
            assert(tile_known(g.tiles[j], crops));
        }
    }
    if 0 <= index < ups.len() {
        lemma_upgrade_found(ups, index);
    }
    let n = crops.len() as int;
    assert((g.selected_crop + 1) % n < n) by (nonlinear_arith)
        requires
            n > 0,
    ;
    let h = apply_elapsed_step(g, elapsed_ms, multiplier);
    assert forall|i: int| 0 <= i < h.tiles.len() implies tile_known(#[trigger] h.tiles[i], crops) by {
        if elapsed_ms > 0 {
            assert(tile_known(g.tiles[i], crops));
        }
    }
    if buy_row_safe(g) {
        law_buying_a_row_keeps_tiles(g);
        let r = buy_row_step(g).0;
        assert forall|i: int| 0 <= i < r.tiles.len() implies tile_known(#[trigger] r.tiles[i], crops) by {
            if i < g.tiles.len() {
                assert(r.tiles[i] == g.tiles[i]);
            }
        }
    }
    if buy_column_safe(g) {
        law_buying_a_column_keeps_tiles(g);
        lemma_widen_known(g.tiles, g.cols as nat, crops);
    }
    assert(STARTING_SIZE * STARTING_SIZE == 9);
}

/// A new farm passes the catalogs' check.
pub proof fn law_new_farm_is_valid(crops: Seq<CropDefinition>, ups: Seq<UpgradeDefinition>, now_utc: i64)
    requires
        crops.len() > 0,
    ensures
        check_game(new_game(crops, now_utc), crops, ups) is Ok,
{
    assert(STARTING_SIZE * STARTING_SIZE == 9);
    lemma_sound_game_checks(new_game(crops, now_utc), crops, ups);
}

/// A farm that passes the catalogs' check still passes it after anything the
/// player or the machinery does: working a tile, buying seeds, machines or
/// land, selling, choosing a crop, letting time pass, a rebirth, and the
/// machines' turns.
pub proof fn law_actions_keep_farm_valid(
    g: GameModel,
    crops: Seq<CropDefinition>,
    ups: Seq<UpgradeDefinition>,
    row: u32,
    col: u32,
    index: int,
    elapsed_ms: u64,
    multiplier: u64,
)
    requires
        check_game(g, crops, ups) is Ok,
        g.upgrades.dom().finite(),
    ensures
        check_game(use_tile_step(g, row, col, crops).0, crops, ups) is Ok,
        check_game(buy_seed_step(g, crops).0, crops, ups) is Ok,
        check_game(buy_upgrade_step(g, index, ups).0, crops, ups) is Ok,
        check_game(sell_step(g, crops).0, crops, ups) is Ok,
        check_game(select_previous_of(g, crops), crops, ups) is Ok,
        check_game(select_next_of(g, crops), crops, ups) is Ok,
        check_game(apply_elapsed_step(g, elapsed_ms, multiplier), crops, ups) is Ok,
        check_game(rebirth_step(g, crops).0, crops, ups) is Ok,
        buy_row_safe(g) ==> check_game(buy_row_step(g).0, crops, ups) is Ok,
        buy_column_safe(g) ==> check_game(buy_column_step(g).0, crops, ups) is Ok,
        check_game(run_machines(g, ups, crops, elapsed_ms, ups.len()).0, crops, ups) is Ok,
{
    lemma_checked_game_is_sound(g, crops, ups);
    lemma_actions_keep_sound(g, crops, ups, row, col, index, elapsed_ms, multiplier);
    lemma_machines_keep_sound(g, ups, crops, elapsed_ms, ups.len());
    lemma_sound_game_checks(use_tile_step(g, row, col, crops).0, crops, ups);
    lemma_sound_game_checks(buy_seed_step(g, crops).0, crops, ups);
    lemma_sound_game_checks(buy_upgrade_step(g, index, ups).0, crops, ups);
    lemma_sound_game_checks(sell_step(g, crops).0, crops, ups);
    lemma_sound_game_checks(select_previous_of(g, crops), crops, ups);
    lemma_sound_game_checks(select_next_of(g, crops), crops, ups);
    lemma_sound_game_checks(apply_elapsed_step(g, elapsed_ms, multiplier), crops, ups);
    lemma_sound_game_checks(rebirth_step(g, crops).0, crops, ups);
    if buy_row_safe(g) {
        lemma_sound_game_checks(buy_row_step(g).0, crops, ups);
    }
    if buy_column_safe(g) {
        lemma_sound_game_checks(buy_column_step(g).0, crops, ups);
    }
    lemma_sound_game_checks(run_machines(g, ups, crops, elapsed_ms, ups.len()).0, crops, ups);
}

// ---------------------------------------------------------------------------
// Earnings within a run

proof fn lemma_step_keeps_earnings(g: GameModel, kind: UpgradeKind, crops: Seq<CropDefinition>)
    ensures
        automation_step(g, kind, crops).0.run_earnings >= g.run_earnings,
{
}

proof fn lemma_cycles_keep_earnings(g: GameModel, kind: UpgradeKind, crops: Seq<CropDefinition>, n: nat)
    ensures
        run_cycles(g, kind, crops, n).0.run_earnings >= g.run_earnings,
    decreases n,
{
    if n > 0 {
        lemma_step_keeps_earnings(g, kind, crops);
        let (g1, message) = automation_step(g, kind, crops);
        if message is Some {
            lemma_cycles_keep_earnings(g1, kind, crops, (n - 1) as nat);
        }
    }
}

proof fn lemma_machines_keep_earnings(
    g: GameModel,
    ups: Seq<UpgradeDefinition>,
    crops: Seq<CropDefinition>,
    elapsed_ms: u64,
    n: nat,
)
    ensures
        run_machines(g, ups, crops, elapsed_ms, n).0.run_earnings >= g.run_earnings,
    decreases n,
{
    if n > 0 && n <= ups.len() {
        lemma_machines_keep_earnings(g, ups, crops, elapsed_ms, (n - 1) as nat);
        let (g1, messages) = run_machines(g, ups, crops, elapsed_ms, (n - 1) as nat);
        let u = ups[n - 1];
        let state = upgrade_state_of(g1.upgrades, u.id@);
        if !(state.level == 0 || u.kind == UpgradeKind::GrowthBoost) {
            let (timer, cycles) = machine_timer(state, u.interval_seconds, elapsed_ms);
            let g2 = GameModel { upgrades: g1.upgrades.insert(u.id@, timer), ..g1 };
            lemma_cycles_keep_earnings(g2, u.kind, crops, cycles);
        }
    }
}

/// Within a run, earnings only grow: working tiles, buying, selling, choosing
/// a crop, letting time pass and the machines' turns never lower them, so a
/// crop or machine once unlocked stays unlocked until a rebirth starts a new
/// run from nothing.
pub proof fn law_earnings_only_grow(
    g: GameModel,
    crops: Seq<CropDefinition>,
    ups: Seq<UpgradeDefinition>,
    row: u32,
    col: u32,
    index: int,
    elapsed_ms: u64,
    multiplier: u64,
)
    ensures
        use_tile_step(g, row, col, crops).0.run_earnings >= g.run_earnings,
        buy_seed_step(g, crops).0.run_earnings >= g.run_earnings,
        buy_upgrade_step(g, index, ups).0.run_earnings >= g.run_earnings,
        sell_step(g, crops).0.run_earnings >= g.run_earnings,
        select_previous_of(g, crops).run_earnings == g.run_earnings,
        select_next_of(g, crops).run_earnings == g.run_earnings,
        apply_elapsed_step(g, elapsed_ms, multiplier).run_earnings == g.run_earnings,
        buy_row_step(g).0.run_earnings == g.run_earnings,
        buy_column_step(g).0.run_earnings == g.run_earnings,
        run_machines(g, ups, crops, elapsed_ms, ups.len()).0.run_earnings >= g.run_earnings,
        rebirth_step(g, crops).1.changed ==> rebirth_step(g, crops).0.run_earnings == 0,
{
    lemma_machines_keep_earnings(g, ups, crops, elapsed_ms, ups.len());
}

// ---------------------------------------------------------------------------
// The text-keyed map

/// A map reads back what was written: after a value is stored under a key,
/// that key holds the value and every other key reads as before; after a key
/// is taken out, it holds nothing and every other key reads as before.
pub proof fn law_map_reads_back_writes<T>(before: Map<Seq<char>, T>, key: Seq<char>, value: T, other: Seq<char>)
    requires
        other != key,
    ensures
        before.insert(key, value).contains_key(key),
        before.insert(key, value)[key] == value,
        before.insert(key, value).contains_key(other) == before.contains_key(other),
        before.contains_key(other) ==> before.insert(key, value)[other] == before[other],
        !before.remove(key).contains_key(key),
        before.remove(key).contains_key(other) == before.contains_key(other),
        before.contains_key(other) ==> before.remove(key)[other] == before[other],
{
}

// ---------------------------------------------------------------------------
// Machine entries

proof fn lemma_cycles_keep_machines(g: GameModel, kind: UpgradeKind, crops: Seq<CropDefinition>, n: nat)
    ensures
        run_cycles(g, kind, crops, n).0.upgrades == g.upgrades,
    decreases n,
{
    if n > 0 {
        let (g1, message) = automation_step(g, kind, crops);
        if message is Some {
            lemma_cycles_keep_machines(g1, kind, crops, (n - 1) as nat);
        }
    }
}

/// The machinery adds no machine entries and changes no machine's level:
/// machines not held and growth boosts get no entry, and a held machine's
/// turn only moves its timer.
pub proof fn law_machinery_keeps_machines(
    g: GameModel,
    ups: Seq<UpgradeDefinition>,
    crops: Seq<CropDefinition>,
    elapsed_ms: u64,
    n: nat,
)
    ensures
        forall|k: Seq<char>| #[trigger] run_machines(g, ups, crops, elapsed_ms, n).0.upgrades.contains_key(k)
            <==> g.upgrades.contains_key(k),
        forall|k: Seq<char>| #[trigger] g.upgrades.contains_key(k) ==> run_machines(
            g,
            ups,
            crops,
            elapsed_ms,
            n,
        ).0.upgrades[k].level == g.upgrades[k].level,
    decreases n,
{
    if n > 0 && n <= ups.len() {
        law_machinery_keeps_machines(g, ups, crops, elapsed_ms, (n - 1) as nat);
        let (g1, messages) = run_machines(g, ups, crops, elapsed_ms, (n - 1) as nat);
        let u = ups[n - 1];
        let state = upgrade_state_of(g1.upgrades, u.id@);
        if !(state.level == 0 || u.kind == UpgradeKind::GrowthBoost) {
            let (timer, cycles) = machine_timer(state, u.interval_seconds, elapsed_ms);
            let g2 = GameModel { upgrades: g1.upgrades.insert(u.id@, timer), ..g1 };
            assert(g1.upgrades.contains_key(u.id@));
            lemma_cycles_keep_machines(g2, u.kind, crops, cycles);
        }
    }
}

/// The machinery leaves alone the entry of a machine held at level 0 and
/// that of a growth boost: only the timers of running machines move.
pub proof fn law_machinery_leaves_idle_machines(
    g: GameModel,
    ups: Seq<UpgradeDefinition>,
    crops: Seq<CropDefinition>,
    elapsed_ms: u64,
    n: nat,
)
    requires
        forall|i: int, j: int| 0 <= i < j < ups.len() ==> ups[i].id@ != ups[j].id@,
    ensures
        forall|k: Seq<char>| #[trigger] g.upgrades.contains_key(k) && g.upgrades[k].level == 0 ==> run_machines(
            g,
            ups,
            crops,
            elapsed_ms,
            n,
        ).0.upgrades[k] == g.upgrades[k],
        forall|i: int|
            0 <= i < ups.len() && ups[i].kind == UpgradeKind::GrowthBoost && g.upgrades.contains_key(
                #[trigger] ups[i].id@,
            ) ==> run_machines(g, ups, crops, elapsed_ms, n).0.upgrades[ups[i].id@] == g.upgrades[ups[i].id@],
    decreases n,
{
    if n > 0 && n <= ups.len() {
        law_machinery_leaves_idle_machines(g, ups, crops, elapsed_ms, (n - 1) as nat);
        law_machinery_keeps_machines(g, ups, crops, elapsed_ms, (n - 1) as nat);
        let (g1, messages) = run_machines(g, ups, crops, elapsed_ms, (n - 1) as nat);
        let u = ups[n - 1];
        let state = upgrade_state_of(g1.upgrades, u.id@);
        if !(state.level == 0 || u.kind == UpgradeKind::GrowthBoost) {
            let (timer, cycles) = machine_timer(state, u.interval_seconds, elapsed_ms);
            let g2 = GameModel { upgrades: g1.upgrades.insert(u.id@, timer), ..g1 };
            lemma_cycles_keep_machines(g2, u.kind, crops, cycles);
            assert forall|k: Seq<char>| #[trigger] g.upgrades.contains_key(k) && g.upgrades[k].level == 0 implies
                run_machines(g, ups, crops, elapsed_ms, n).0.upgrades[k] == g.upgrades[k] by {
                if k == u.id@ {
                    assert(g1.upgrades[k].level == g.upgrades[k].level);
                }
            }
            assert forall|i: int|
                0 <= i < ups.len() && ups[i].kind == UpgradeKind::GrowthBoost && g.upgrades.contains_key(
                    #[trigger] ups[i].id@,
                ) implies run_machines(g, ups, crops, elapsed_ms, n).0.upgrades[ups[i].id@]
                == g.upgrades[ups[i].id@] by {
                if i != n - 1 {
                    if i < n - 1 {
                        assert(ups[i].id@ != ups[n - 1].id@);
                    } else {
                        assert(ups[n - 1].id@ != ups[i].id@);
                    }
                }
            }
        }
    }
}

// ---------------------------------------------------------------------------
// Working a tile

/// Working a tile answers "Outside farm" exactly when the tile lies outside
/// the field; and work that changes nothing leaves the farm as it was, but
/// for a seed count of zero that may be written down.
pub proof fn law_idle_tile_work_keeps_farm(g: GameModel, row: u32, col: u32, crops: Seq<CropDefinition>)
    ensures
        (use_tile_step(g, row, col, crops).1 == unchanged_with("Outside farm"@)) <==> !(row < g.rows && col
            < g.cols),
        !use_tile_step(g, row, col, crops).1.changed ==> use_tile_step(g, row, col, crops).0 == (GameModel {
            seeds: use_tile_step(g, row, col, crops).0.seeds,
            ..g
        }),
        !use_tile_step(g, row, col, crops).1.changed ==> forall|k: Seq<char>|
            #[trigger] count_of(use_tile_step(g, row, col, crops).0.seeds, k) == count_of(g.seeds, k),
{
    reveal_strlit("Outside farm");
    reveal_strlit("No ");
    reveal_strlit("Unknown crop");
    reveal_strlit(" unlocks at $");
    reveal_strlit(": ");
    reveal_strlit("s remaining");
    let (g2, o) = use_tile_step(g, row, col, crops);
    let outside = "Outside farm"@;
    if let Some(i) = tile_index(g, row, col) {
        match g.tiles[i] {
            TileState::Untilled => {},
            TileState::Tilled => {
                let c = selected_crop_of(g, crops);
                if g.run_earnings < c.unlock_earnings {
                    lemma_decimal_digits(c.unlock_earnings as nat);
                    let unlock = c.name@ + " unlocks at $"@ + decimal(c.unlock_earnings as nat);
                    assert(unlock.len() > outside.len());
                } else if count_of(g.seeds, c.id@) == 0 {
                    let no_seeds = "No "@ + c.name@ + " seeds"@;
                    assert(no_seeds[0] == 'N');
                    assert(outside[0] == 'O');
                }
            },
            TileState::Planted { crop_id, progress_ms } => {
                match lookup_crop(crops, crop_id@) {
                    None => {
                        assert("Unknown crop"@[0] != outside[0]);
                        assert(o.message != outside);
                    },
                    Some(c) => {
                        if progress_ms < c.grow_seconds * 1000 {
                            let left = remaining_seconds(progress_ms, c.grow_seconds);
                            lemma_decimal_digits(left);
                            let waiting = c.name@ + ": "@ + decimal(left) + "s remaining"@;
                            assert(waiting.len() > outside.len());
                            assert(o.message != outside);
                        }
                    },
                }
            },
        }
    }
}

// ---------------------------------------------------------------------------
// Backup names

proof fn lemma_decimal_digits(n: nat)
    ensures
        decimal(n).len() >= 1,
        n >= 10 ==> decimal(n).len() >= 2,
        forall|i: int| 0 <= i < decimal(n).len() ==> #[trigger] decimal(n)[i] != '-',
    decreases n,
{
    if n >= 10 {
        lemma_decimal_digits(n / 10);
    }
}

proof fn lemma_decimal_injective(a: nat, b: nat)
    requires
        decimal(a) == decimal(b),
    ensures
        a == b,
    decreases a,
{
    lemma_decimal_digits(a);
    lemma_decimal_digits(b);
    if a >= 10 && b >= 10 {
        assert(decimal(a / 10) == decimal(a).drop_last());
        assert(decimal(b / 10) == decimal(b).drop_last());
        lemma_decimal_injective(a / 10, b / 10);
        assert(decimal(a).last() == digit_char((a % 10) as int));
        assert(decimal(b).last() == digit_char((b % 10) as int));
        lemma_digit_injective((a % 10) as int, (b % 10) as int);
    } else if a < 10 && b < 10 {
        assert(decimal(a)[0] == digit_char(a as int));
        assert(decimal(b)[0] == digit_char(b as int));
        lemma_digit_injective(a as int, b as int);
    }
}

proof fn lemma_digit_injective(x: int, y: int)
    requires
        0 <= x < 10,
        0 <= y < 10,
        digit_char(x) == digit_char(y),
    ensures
        x == y,
{
}

proof fn lemma_signed_decimal_injective(a: int, b: int)
    requires
        signed_decimal(a) == signed_decimal(b),
    ensures
        a == b,
{
    if a < 0 {
        lemma_decimal_digits((-a) as nat);
    }
    if b < 0 {
        lemma_decimal_digits((-b) as nat);
    }
    lemma_decimal_digits(a as nat);
    lemma_decimal_digits(b as nat);
    if a < 0 && b < 0 {
        assert(decimal((-a) as nat) == signed_decimal(a).drop_first());
        assert(decimal((-b) as nat) == signed_decimal(b).drop_first());
        lemma_decimal_injective((-a) as nat, (-b) as nat);
    } else if a >= 0 && b >= 0 {
        lemma_decimal_injective(a as nat, b as nat);
    } else if a < 0 {
        assert(signed_decimal(a)[0] == '-');
        assert(signed_decimal(b)[0] == decimal(b as nat)[0]);
    } else {
        assert(signed_decimal(b)[0] == '-');
        assert(signed_decimal(a)[0] == decimal(a as nat)[0]);
    }
}

/// Backups of one save made at different times get different names, so no
/// backup overwrites an earlier one.
pub proof fn law_backup_names_differ(stem: Option<Seq<char>>, earlier_utc: i64, later_utc: i64)
    requires
        earlier_utc != later_utc,
    ensures
        backup_path_of(stem, earlier_utc) != backup_path_of(stem, later_utc),
{
    let s = match stem {
        Some(t) => t,
        None => "terminalfarms"@,
    };
    let head = s + ".backup-"@;
    let x = signed_decimal(earlier_utc as int);
    let y = signed_decimal(later_utc as int);
    reveal_strlit(".db");
    if backup_path_of(stem, earlier_utc) == backup_path_of(stem, later_utc) {
        let p = head + x + ".db"@;
        let q = head + y + ".db"@;
        assert(p == q);
        assert(x.len() == y.len());
        assert(x =~= p.subrange(head.len() as int, (head.len() + x.len()) as int));
        assert(y =~= q.subrange(head.len() as int, (head.len() + y.len()) as int));
        lemma_signed_decimal_injective(earlier_utc as int, later_utc as int);
    }
}

// ---------------------------------------------------------------------------
// The reset command

/// The reset command takes two presses in a row: the first only arms it and
/// leaves the farm as it was; a second 'x' then starts a new farm; any other
/// key in between disarms it.
pub proof fn law_reset_takes_two_presses(a: AppModel, other: Key, width: u16, height: u16)
    requires
        !a.reset_armed,
        other != Key::Char('x'),
    ensures
        ({
            let (b, changed) = key_step(a, Key::Char('x'), width, height);
            b.reset_armed && b.game == a.game && !changed
        }),
        ({
            let b = key_step(a, Key::Char('x'), width, height).0;
            let (c, changed) = key_step(b, Key::Char('x'), width, height);
            changed && c.game == new_game(a.crops, a.game.last_seen_utc) && !c.reset_armed
        }),
        ({
            let b = key_step(a, Key::Char('x'), width, height).0;
            !key_step(b, other, width, height).0.reset_armed
        }),
{
    let b = key_step(a, Key::Char('x'), width, height).0;
    let b0 = crate::session::disarmed(b);
    assert(!b0.reset_armed);
    assert(!key_action(b0, other).0.reset_armed);
}

} // verus!
