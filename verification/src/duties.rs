//! What each farm action owes the player, stated over the farm before and
//! after: the harvester collects the crop it clears, sowing spends exactly
//! one seed, a rebirth counts itself, land costs its price, and selling
//! clears every catalog crop's produce.
use vstd::prelude::*;

use crate::data::{lookup_crop, CropDefinition, UpgradeDefinition, UpgradeKind};
use crate::text::decimal;
use crate::game::{
    automation_step, buy_column_step, buy_row_step, column_cost_of, count_of, is_ripe, lemma_first_tile_found,
    lemma_first_tile_none, planted_id, rebirth_requirement_of, rebirth_step, ripe_pred, row_cost_of, sale_value, sell_step,
    sell_through, two_pow, use_tile_step, apply_elapsed_step, buy_seed_step, buy_upgrade_step, tilled_pred,
    untilled_pred, upgrade_state_of, changed_with, first_tile, saturate, GameModel, TileState, UpgradeState, STARTING_COINS, STARTING_SIZE,
};

verus! {

// ---------------------------------------------------------------------------
// The harvester

/// `i` is the first tile that holds a ripe catalog crop.
pub open spec fn first_ripe(g: GameModel, crops: Seq<CropDefinition>, i: int) -> bool {
    &&& 0 <= i < g.tiles.len()
    &&& is_ripe(g.tiles[i], crops)
    &&& forall|j: int| 0 <= j < i ==> !is_ripe(#[trigger] g.tiles[j], crops)
}

proof fn lemma_first_ripe_exists(g: GameModel, crops: Seq<CropDefinition>, i: int)
    requires
        0 <= i < g.tiles.len(),
        is_ripe(g.tiles[i], crops),
    ensures
        exists|k: int| first_ripe(g, crops, k),
    decreases i,
{
    if exists|j: int| 0 <= j < i && is_ripe(#[trigger] g.tiles[j], crops) {
        let j = choose|j: int| 0 <= j < i && is_ripe(#[trigger] g.tiles[j], crops);
        lemma_first_ripe_exists(g, crops, j);
    } else {
        assert(first_ripe(g, crops, i));
    }
}

/// The harvester works exactly when some tile holds a ripe crop. Then it
/// clears the first such tile to tilled soil and adds one to the produce of
/// that tile's crop; nothing else on the farm changes. Otherwise the farm
/// stays as it was.
pub proof fn law_harvester_collects_the_crop(g: GameModel, crops: Seq<CropDefinition>, i: int)
    requires
        first_ripe(g, crops, i),
        count_of(g.produce, planted_id(g.tiles[i])) < u32::MAX,
    ensures
        ({
            let (h, message) = automation_step(g, UpgradeKind::AutoHarvest, crops);
            let id = planted_id(g.tiles[i]);
            &&& lookup_crop(crops, id) is Some
            &&& message == Some("Harvester collected "@ + lookup_crop(crops, id).unwrap().name@)
            &&& h.tiles == g.tiles.update(i, TileState::Tilled)
            &&& count_of(h.produce, id) == count_of(g.produce, id) + 1
            &&& h.produce.contains_key(id)
            &&& forall|k: Seq<char>| k != id ==> #[trigger] h.produce.contains_key(k) == g.produce.contains_key(k)
                && (h.produce.contains_key(k) ==> h.produce[k] == g.produce[k])
            &&& h == (GameModel { tiles: h.tiles, produce: h.produce, ..g })
        }),
{
    let p = ripe_pred(crops);
    assert(p(g.tiles[i]));
    assert forall|j: int| 0 <= j < i implies !p(#[trigger] g.tiles[j]) by {
        assert(!is_ripe(g.tiles[j], crops));
    }
    lemma_first_tile_found(g.tiles, p, i);
}

/// With no ripe crop on the farm the harvester has nothing to do and
/// changes nothing.
pub proof fn law_harvester_idles_without_ripe_crops(g: GameModel, crops: Seq<CropDefinition>)
    requires
        forall|j: int| 0 <= j < g.tiles.len() ==> !is_ripe(#[trigger] g.tiles[j], crops),
    ensures
        automation_step(g, UpgradeKind::AutoHarvest, crops) == (g, None::<Seq<char>>),
{
    let p = ripe_pred(crops);
    assert forall|j: int| 0 <= j < g.tiles.len() implies !p(#[trigger] g.tiles[j]) by {
        assert(!is_ripe(g.tiles[j], crops));
    }
    lemma_first_tile_none(g.tiles, p);
}

// ---------------------------------------------------------------------------
// Sowing

/// Working a tilled tile on the field, with the selected crop unlocked and at
/// least one of its seeds held, plants that crop there at no progress and
/// spends exactly one of its seeds; every other seed count and the rest of
/// the farm stay as they were.
pub proof fn law_sowing_spends_one_seed(g: GameModel, row: u32, col: u32, crops: Seq<CropDefinition>)
    requires
        g.tiles.len() == g.rows * g.cols,
        row < g.rows,
        col < g.cols,
        g.tiles[row * g.cols + col] == TileState::Tilled,
        g.selected_crop < crops.len(),
        g.run_earnings >= crops[g.selected_crop as int].unlock_earnings,
        count_of(g.seeds, crops[g.selected_crop as int].id@) >= 1,
    ensures
        ({
            let (h, outcome) = use_tile_step(g, row, col, crops);
            let c = crops[g.selected_crop as int];
            &&& outcome.changed
            &&& outcome.message == "Sowed "@ + c.name@
            &&& h.tiles == g.tiles.update(
                row * g.cols + col,
                TileState::Planted { crop_id: c.id, progress_ms: 0 },
            )
            &&& count_of(h.seeds, c.id@) + 1 == count_of(g.seeds, c.id@)
            &&& forall|k: Seq<char>| k != c.id@ ==> #[trigger] h.seeds.contains_key(k) == g.seeds.contains_key(k)
                && (h.seeds.contains_key(k) ==> h.seeds[k] == g.seeds[k])
            &&& h == (GameModel { tiles: h.tiles, seeds: h.seeds, ..g })
        }),
{
    assert(row * g.cols + col < g.rows * g.cols) by (nonlinear_arith)
        requires
            row < g.rows,
            col < g.cols,
    ;
}

// ---------------------------------------------------------------------------
// Rebirth

proof fn lemma_two_pow_step(e: nat)
    ensures
        two_pow(e + 1) == 2 * two_pow(e),
{
}

/// A rebirth happens exactly when the run has earned the requirement. It
/// starts a new farm, with one more rebirth counted and one more permanent
/// token, so the next requirement is twice the last one (while that fits);
/// a refused rebirth changes nothing.
pub proof fn law_rebirth_counts_and_doubles(g: GameModel, crops: Seq<CropDefinition>)
    requires
        crops.len() > 0,
        g.rebirth_count < u32::MAX,
        g.rebirth_tokens < u32::MAX,
    ensures
        ({
            let (h, outcome) = rebirth_step(g, crops);
            &&& outcome.changed <==> g.run_earnings >= rebirth_requirement_of(g)
            &&& !outcome.changed ==> h == g
            &&& outcome.changed ==> {
                &&& h.rebirth_count == g.rebirth_count + 1
                &&& h.rebirth_tokens == g.rebirth_tokens + 1
                &&& h.coins == STARTING_COINS
                &&& h.run_earnings == 0
                &&& h.rows == STARTING_SIZE && h.cols == STARTING_SIZE
                &&& h.tiles.len() == STARTING_SIZE * STARTING_SIZE
                &&& forall|j: int| 0 <= j < h.tiles.len() ==> #[trigger] h.tiles[j] == TileState::Untilled
                &&& h.produce.is_empty() && h.upgrades.is_empty()
                &&& h.seeds == Map::<Seq<char>, u32>::empty().insert(crops[0].id@, 3)
                &&& h.selected_crop == 0
                &&& outcome.message == "Rebirth "@ + decimal(h.rebirth_count as nat) + ": +1 permanent token"@
                &&& h.last_seen_utc == g.last_seen_utc
                &&& 2 * rebirth_requirement_of(g) <= u64::MAX ==> rebirth_requirement_of(h) == 2
                    * rebirth_requirement_of(g)
            }
        }),
{
    let (h, outcome) = rebirth_step(g, crops);
    if outcome.changed {
        lemma_two_pow_step(g.rebirth_count as nat);
        assert(h.produce =~= Map::<Seq<char>, u32>::empty());
        assert(h.seeds =~= Map::<Seq<char>, u32>::empty().insert(crops[0].id@, 3));
    }
}

// ---------------------------------------------------------------------------
// Land

/// A row is bought exactly when the coins cover its price, 25 times the
/// square of the rows beyond the first; the purchase spends exactly that
/// price and adds one row. A refused purchase changes nothing.
pub proof fn law_buying_a_row_costs_its_price(g: GameModel)
    requires
        g.rows >= 1,
        g.rows < u32::MAX,
    ensures
        ({
            let (h, outcome) = buy_row_step(g);
            let price = 25 * ((g.rows - 1) * (g.rows - 1));
            &&& row_cost_of(g) == price
            &&& outcome.changed <==> g.coins >= price
            &&& !outcome.changed ==> h == g
            &&& outcome.changed ==> h.coins + price == g.coins && h.rows == g.rows + 1 && h.cols == g.cols
                && h.run_earnings == g.run_earnings && h.seeds == g.seeds && h.produce == g.produce
        }),
{
}

/// A column is bought exactly when the coins cover its price, 25 times the
/// square of the columns beyond the first; the purchase spends exactly that
/// price and adds one column. A refused purchase changes nothing.
pub proof fn law_buying_a_column_costs_its_price(g: GameModel)
    requires
        g.cols >= 1,
        g.cols < u32::MAX,
    ensures
        ({
            let (h, outcome) = buy_column_step(g);
            let price = 25 * ((g.cols - 1) * (g.cols - 1));
            &&& column_cost_of(g) == price
            &&& outcome.changed <==> g.coins >= price
            &&& !outcome.changed ==> h == g
            &&& outcome.changed ==> h.coins + price == g.coins && h.cols == g.cols + 1 && h.rows == g.rows
                && h.run_earnings == g.run_earnings && h.seeds == g.seeds && h.produce == g.produce
        }),
{
}

// ---------------------------------------------------------------------------
// Selling

/// Selling through the first `n` catalog crops removes the produce of each of
/// them, keeps every other produce entry, and with distinct ids earns at least
/// what each of those crops' produce is worth on its own (unless the total is
/// capped).
proof fn lemma_selling_through(produce: Map<Seq<char>, u32>, crops: Seq<CropDefinition>, n: nat, tokens: u32)
    requires
        n <= crops.len(),
    ensures
        ({
            let (p, total) = sell_through(produce, crops, n, tokens);
            &&& forall|i: int| 0 <= i < n ==> !p.contains_key(#[trigger] crops[i].id@)
            &&& forall|k: Seq<char>|
                (forall|i: int| 0 <= i < n ==> crops[i].id@ != k) ==> (#[trigger] p.contains_key(k)
                    == produce.contains_key(k) && (p.contains_key(k) ==> p[k] == produce[k]))
            &&& (forall|i: int, j: int| 0 <= i < j < crops.len() ==> crops[i].id@ != crops[j].id@) ==> forall|i: int|
                0 <= i < n ==> total == u64::MAX || total >= sale_value(
                    #[trigger] crops[i].sell_price,
                    count_of(produce, crops[i].id@),
                    tokens,
                )
        }),
    decreases n,
{
    if n > 0 {
        let m = (n - 1) as nat;
        lemma_selling_through(produce, crops, m, tokens);
        let (p0, t0) = sell_through(produce, crops, m, tokens);
        let c = crops[m as int];
        let (p, total) = sell_through(produce, crops, n, tokens);
        assert(p == p0.remove(c.id@));
        assert forall|k: Seq<char>| (forall|i: int| 0 <= i < n ==> crops[i].id@ != k) implies (
        #[trigger] p.contains_key(k) == produce.contains_key(k) && (p.contains_key(k) ==> p[k] == produce[k])) by {
            assert(crops[m as int].id@ != k);
            assert forall|i: int| 0 <= i < m implies crops[i].id@ != k by {}
        }
        if forall|i: int, j: int| 0 <= i < j < crops.len() ==> crops[i].id@ != crops[j].id@ {
            assert forall|i: int| 0 <= i < m implies crops[i].id@ != c.id@ by {
                assert(crops[i].id@ != crops[m as int].id@);
            }
            assert(count_of(p0, c.id@) == count_of(produce, c.id@));
        }
    }
}

/// A sale of `total` coins: the coins and the run's earnings grow by it
/// (capped at `u64::MAX`), the sale counts as a change exactly when it is not
/// zero, and with distinct catalog ids it is at least what each crop's
/// produce is worth on its own, unless it is capped.
pub open spec fn sale_settles(g: GameModel, h: GameModel, changed: bool, crops: Seq<CropDefinition>, total: u64) -> bool {
    &&& h.coins == (if g.coins + total > u64::MAX { u64::MAX as int } else { g.coins + total })
    &&& h.run_earnings == (if g.run_earnings + total > u64::MAX {
        u64::MAX as int
    } else {
        g.run_earnings + total
    })
    &&& changed <==> total > 0
    &&& (forall|i: int, j: int| 0 <= i < j < crops.len() ==> crops[i].id@ != crops[j].id@) ==> forall|i: int|
        0 <= i < crops.len() ==> total == u64::MAX || total >= sale_value(
            #[trigger] crops[i].sell_price,
            count_of(g.produce, crops[i].id@),
            g.rebirth_tokens,
        )
}

/// Selling leaves no produce of any catalog crop and keeps every other
/// produce entry. The coins and the run's earnings grow by the same total,
/// which (with distinct catalog ids, unless capped) is at least what each
/// crop's produce is worth on its own; the sale happens exactly when that
/// total is not zero, and touches nothing else.
pub proof fn law_selling_clears_catalog_produce(g: GameModel, crops: Seq<CropDefinition>)
    ensures
        ({
            let (h, outcome) = sell_step(g, crops);
            &&& outcome.changed ==> exists|total: u64| total > 0 && #[trigger] sale_settles(g, h, true, crops, total)
                && outcome.message == "Sold produce for $"@ + decimal(total as nat)
            &&& !outcome.changed ==> outcome.message == "No produce to sell"@
            &&& forall|i: int| 0 <= i < crops.len() ==> count_of(h.produce, #[trigger] crops[i].id@) == 0
            &&& forall|k: Seq<char>|
                (forall|i: int| 0 <= i < crops.len() ==> crops[i].id@ != k) ==> (#[trigger] h.produce.contains_key(k)
                    == g.produce.contains_key(k) && (h.produce.contains_key(k) ==> h.produce[k] == g.produce[k]))
            &&& h == (GameModel { coins: h.coins, run_earnings: h.run_earnings, produce: h.produce, ..g })
            &&& exists|total: u64| #[trigger] sale_settles(g, h, outcome.changed, crops, total)
        }),
{
    lemma_selling_through(g.produce, crops, crops.len(), g.rebirth_tokens);
    let (p, total) = sell_through(g.produce, crops, crops.len(), g.rebirth_tokens);
    let (h, outcome) = sell_step(g, crops);
    assert forall|i: int| 0 <= i < crops.len() implies count_of(h.produce, #[trigger] crops[i].id@) == 0 by {
        assert(!p.contains_key(crops[i].id@));
    }
    assert(sale_settles(g, h, outcome.changed, crops, total));
}

// ---------------------------------------------------------------------------
// The cultivator and the seed drill

/// `i` is the first tile in the given state.
pub open spec fn first_in_state(g: GameModel, state: TileState, i: int) -> bool {
    &&& 0 <= i < g.tiles.len()
    &&& g.tiles[i] == state
    &&& forall|j: int| 0 <= j < i ==> #[trigger] g.tiles[j] != state
}

/// The cultivator tills the first untilled tile and changes nothing else;
/// with no untilled tile it has nothing to do.
pub proof fn law_cultivator_tills_the_first_untilled_tile(g: GameModel, crops: Seq<CropDefinition>)
    ensures
        forall|i: int| #[trigger] first_in_state(g, TileState::Untilled, i) ==> automation_step(
            g,
            UpgradeKind::AutoTill,
            crops,
        ) == (GameModel { tiles: g.tiles.update(i, TileState::Tilled), ..g }, Some("Cultivator tilled soil"@)),
        (forall|j: int| 0 <= j < g.tiles.len() ==> #[trigger] g.tiles[j] != TileState::Untilled) ==> automation_step(
            g,
            UpgradeKind::AutoTill,
            crops,
        ) == (g, None::<Seq<char>>),
{
    let p = untilled_pred();
    assert forall|i: int| #[trigger] first_in_state(g, TileState::Untilled, i) implies automation_step(
        g,
        UpgradeKind::AutoTill,
        crops,
    ) == (GameModel { tiles: g.tiles.update(i, TileState::Tilled), ..g }, Some("Cultivator tilled soil"@)) by {
        assert(p(g.tiles[i]));
        assert forall|j: int| 0 <= j < i implies !p(#[trigger] g.tiles[j]) by {
            assert(g.tiles[j] != TileState::Untilled);
        }
        lemma_first_tile_found(g.tiles, p, i);
    }
    if forall|j: int| 0 <= j < g.tiles.len() ==> #[trigger] g.tiles[j] != TileState::Untilled {
        assert forall|j: int| 0 <= j < g.tiles.len() implies !p(#[trigger] g.tiles[j]) by {
            assert(g.tiles[j] != TileState::Untilled);
        }
        lemma_first_tile_none(g.tiles, p);
    }
}

/// The seed drill sows the selected crop, when it is unlocked and a seed of it
/// is held, on the first tilled tile at no progress, spending exactly one
/// seed; otherwise, or with no tilled tile, it has nothing to do.
pub proof fn law_seed_drill_sows_one_seed(g: GameModel, crops: Seq<CropDefinition>)
    requires
        g.selected_crop < crops.len(),
    ensures
        ({
            let c = crops[g.selected_crop as int];
            let (h, message) = automation_step(g, UpgradeKind::AutoSow, crops);
            &&& (g.run_earnings < c.unlock_earnings || count_of(g.seeds, c.id@) == 0) ==> h == g && message is None
            &&& (forall|j: int| 0 <= j < g.tiles.len() ==> #[trigger] g.tiles[j] != TileState::Tilled) ==> h == g
                && message is None
            &&& forall|i: int|
                #[trigger] first_in_state(g, TileState::Tilled, i) && g.run_earnings >= c.unlock_earnings && count_of(
                    g.seeds,
                    c.id@,
                ) >= 1 ==> {
                    &&& message == Some("Seed drill sowed "@ + c.name@)
                    &&& h.tiles == g.tiles.update(i, TileState::Planted { crop_id: c.id, progress_ms: 0 })
                    &&& count_of(h.seeds, c.id@) + 1 == count_of(g.seeds, c.id@)
                    &&& forall|k: Seq<char>| k != c.id@ ==> #[trigger] h.seeds.contains_key(k)
                        == g.seeds.contains_key(k) && (h.seeds.contains_key(k) ==> h.seeds[k] == g.seeds[k])
                    &&& h == (GameModel { tiles: h.tiles, seeds: h.seeds, ..g })
                }
        }),
{
    let p = tilled_pred();
    let c = crops[g.selected_crop as int];
    assert forall|i: int|
        #[trigger] first_in_state(g, TileState::Tilled, i) && g.run_earnings >= c.unlock_earnings implies
        first_tile(g.tiles, p) == Some(i) by {
        assert(p(g.tiles[i]));
        assert forall|j: int| 0 <= j < i implies !p(#[trigger] g.tiles[j]) by {
            assert(g.tiles[j] != TileState::Tilled);
        }
        lemma_first_tile_found(g.tiles, p, i);
    }
    if forall|j: int| 0 <= j < g.tiles.len() ==> #[trigger] g.tiles[j] != TileState::Tilled {
        assert forall|j: int| 0 <= j < g.tiles.len() implies !p(#[trigger] g.tiles[j]) by {
            assert(g.tiles[j] != TileState::Tilled);
        }
        lemma_first_tile_none(g.tiles, p);
    }
}

// ---------------------------------------------------------------------------
// Working a tile by hand

/// Working untilled soil on the field tills it and changes nothing else.
pub proof fn law_working_untilled_soil_tills_it(g: GameModel, row: u32, col: u32, crops: Seq<CropDefinition>)
    requires
        row < g.rows,
        col < g.cols,
        g.tiles[row * g.cols + col] == TileState::Untilled,
    ensures
        use_tile_step(g, row, col, crops) == (
            GameModel { tiles: g.tiles.update(row * g.cols + col, TileState::Tilled), ..g },
            changed_with("Tilled soil"@),
        ),
{
}

/// Working a tile that grows a catalog crop harvests it when it has grown for
/// the crop's growing time: the tile becomes tilled soil and the crop's
/// produce grows by exactly one. Before that, the farm stays as it was.
pub proof fn law_working_a_ripe_tile_harvests_it(g: GameModel, row: u32, col: u32, crops: Seq<CropDefinition>)
    requires
        row < g.rows,
        col < g.cols,
        g.tiles[row * g.cols + col] is Planted,
        lookup_crop(crops, planted_id(g.tiles[row * g.cols + col])) is Some,
        count_of(g.produce, planted_id(g.tiles[row * g.cols + col])) < u32::MAX,
    ensures
        ({
            let i = row * g.cols + col;
            let id = planted_id(g.tiles[i]);
            let c = lookup_crop(crops, id).unwrap();
            let (h, outcome) = use_tile_step(g, row, col, crops);
            &&& outcome.changed <==> g.tiles[i]->progress_ms >= c.grow_seconds * 1000
            &&& !outcome.changed ==> h == g
            &&& outcome.changed ==> {
                &&& outcome.message == "Harvested "@ + c.name@
                &&& h.tiles == g.tiles.update(i, TileState::Tilled)
                &&& count_of(h.produce, id) == count_of(g.produce, id) + 1
                &&& forall|k: Seq<char>| k != id ==> #[trigger] h.produce.contains_key(k)
                    == g.produce.contains_key(k) && (h.produce.contains_key(k) ==> h.produce[k] == g.produce[k])
                &&& h == (GameModel { tiles: h.tiles, produce: h.produce, ..g })
            }
        }),
{
}

/// Working a tilled tile whose selected crop is still locked, or of which no
/// seed is held, sows nothing: only a seed count of zero may be written down.
pub proof fn law_sowing_needs_an_unlocked_seed(g: GameModel, row: u32, col: u32, crops: Seq<CropDefinition>)
    requires
        row < g.rows,
        col < g.cols,
        g.tiles[row * g.cols + col] == TileState::Tilled,
        g.selected_crop < crops.len(),
        g.run_earnings < crops[g.selected_crop as int].unlock_earnings || count_of(
            g.seeds,
            crops[g.selected_crop as int].id@,
        ) == 0,
    ensures
        ({
            let (h, outcome) = use_tile_step(g, row, col, crops);
            let c = crops[g.selected_crop as int];
            &&& !outcome.changed
            &&& h.tiles == g.tiles
            &&& h == (GameModel { seeds: h.seeds, ..g })
            &&& forall|k: Seq<char>| #[trigger] count_of(h.seeds, k) == count_of(g.seeds, k)
        }),
{
}

// ---------------------------------------------------------------------------
// Shopping

/// Buying a seed of the selected crop, once it is unlocked and the coins
/// cover its seed price, spends exactly that price for exactly one seed. A
/// locked crop sells nothing, and short of money the farm stays as it was but
/// for one free seed when it has nothing left to earn with.
pub proof fn law_buying_a_seed_costs_its_price(g: GameModel, crops: Seq<CropDefinition>)
    requires
        g.selected_crop < crops.len(),
        count_of(g.seeds, crops[g.selected_crop as int].id@) < u32::MAX,
    ensures
        ({
            let c = crops[g.selected_crop as int];
            let (h, outcome) = buy_seed_step(g, crops);
            &&& g.run_earnings < c.unlock_earnings ==> h == g && !outcome.changed
            &&& g.run_earnings >= c.unlock_earnings && g.coins >= c.seed_price ==> {
                &&& outcome.changed
                &&& outcome.message == "Bought "@ + c.name@ + " seed"@
                &&& h.coins + c.seed_price == g.coins
                &&& count_of(h.seeds, c.id@) == count_of(g.seeds, c.id@) + 1
                &&& forall|k: Seq<char>| k != c.id@ ==> #[trigger] h.seeds.contains_key(k)
                    == g.seeds.contains_key(k) && (h.seeds.contains_key(k) ==> h.seeds[k] == g.seeds[k])
                &&& h == (GameModel { coins: h.coins, seeds: h.seeds, ..g })
            }
            &&& g.run_earnings >= c.unlock_earnings && g.coins < c.seed_price ==> {
                ||| h == g && !outcome.changed && outcome.message == "Not enough money"@
                ||| {
                    &&& g.selected_crop == 0
                    &&& count_of(g.seeds, c.id@) == 0
                    &&& forall|j: int| 0 <= j < g.tiles.len() ==> !((#[trigger] g.tiles[j]) is Planted)
                    &&& outcome.changed
                    &&& h == (GameModel { seeds: g.seeds.insert(c.id@, 1), ..g })
                }
            }
        }),
{
}

/// Buying the next level of the machine at a shop position, once it is
/// unlocked and the coins cover the price (its base price times the level
/// bought), spends exactly that price and raises only that machine's level by
/// one, keeping its timer; otherwise the farm stays as it was.
pub proof fn law_buying_a_level_costs_its_price(g: GameModel, index: int, ups: Seq<UpgradeDefinition>)
    requires
        0 <= index < ups.len(),
        upgrade_state_of(g.upgrades, ups[index].id@).level < u32::MAX,
    ensures
        ({
            let u = ups[index];
            let before = upgrade_state_of(g.upgrades, u.id@);
            let price = saturate(u.base_price * (before.level + 1));
            let (h, outcome) = buy_upgrade_step(g, index, ups);
            &&& outcome.changed <==> g.run_earnings >= u.unlock_earnings && g.coins >= price
            &&& !outcome.changed ==> h == g
            &&& outcome.changed ==> {
                &&& h.coins + price == g.coins
                &&& h.upgrades.contains_key(u.id@)
                &&& h.upgrades[u.id@] == (UpgradeState { level: (before.level + 1) as u32, ..before })
                &&& forall|k: Seq<char>| k != u.id@ ==> #[trigger] h.upgrades.contains_key(k)
                    == g.upgrades.contains_key(k) && (h.upgrades.contains_key(k) ==> h.upgrades[k] == g.upgrades[k])
                &&& h == (GameModel { coins: h.coins, upgrades: h.upgrades, ..g })
            }
        }),
{
}

// ---------------------------------------------------------------------------
// Growth

/// Letting time pass grows every planted crop by the elapsed time times the
/// multiplier (in basis points, rounded down, capped at `u64::MAX`), keeps
/// its crop, leaves soil as it is and touches nothing else.
pub proof fn law_time_grows_every_planted_crop(g: GameModel, elapsed_ms: u64, multiplier: u64)
    ensures
        ({
            let h = apply_elapsed_step(g, elapsed_ms, multiplier);
            let growth = saturate(elapsed_ms * multiplier / 10_000);
            &&& h == (GameModel { tiles: h.tiles, ..g })
            &&& h.tiles.len() == g.tiles.len()
            &&& forall|i: int| 0 <= i < g.tiles.len() ==> match #[trigger] g.tiles[i] {
                TileState::Planted { crop_id, progress_ms } => h.tiles[i] == TileState::Planted {
                    crop_id,
                    progress_ms: if elapsed_ms == 0 { progress_ms } else { saturate(progress_ms + growth) },
                },
                _ => h.tiles[i] == g.tiles[i],
            }
        }),
{
}

} // verus!
