//! What the screen shows: the texts of the field's tiles, of the shop's rows
//! and of the status lines. Colours, frames and layout are the front end's.
use vstd::prelude::*;

use crate::data::{lookup_crop, CropCatalog, CropDefinition, UpgradeCatalog, UpgradeDefinition};
use crate::game::{
    column_cost_of, combine_multipliers, combined_multiplier_of, count_of, growth_multiplier_of, growth_stage_of,
    index_fits, is_ripe, rebirth_requirement_of, row_cost_of, selected_crop_of, tile_index, tile_known,
    upgrade_cost_of, upgrade_state_of, GameModel, GameState, TileState, UpgradeState, ACTIVE_GROWTH_MULTIPLIER,
};
use crate::text::{decimal, decimal_string, push_decimal};

verus! {

// ---------------------------------------------------------------------------
// Padding

/// `n` spaces.
pub open spec fn spaces(n: nat) -> Seq<char> {
    Seq::new(n, |i: int| ' ')
}

/// A text padded on the right with spaces to at least `width` characters.
pub open spec fn padded(s: Seq<char>, width: nat) -> Seq<char> {
    if s.len() < width {
        s + spaces((width - s.len()) as nat)
    } else {
        s
    }
}

/// Appends `text`, padded on the right with spaces to at least `width` characters.
pub fn push_padded(out: &mut String, text: &str, width: usize)
    ensures
        final(out)@ == old(out)@ + padded(text@, width as nat),
{
    let ghost start = out@;
    out.append(text);
    let mut n = text.unicode_len();
    let ghost len = n;
    while n < width
        invariant
            len == text@.len(),
            len <= n,
            n == len || n <= width,
            out@ == start + text@ + spaces((n - len) as nat),
        decreases width - n,
    {
        proof {
            reveal_strlit(" ");
        }
        out.append(" ");
        assert(spaces((n + 1 - len) as nat) =~= spaces((n - len) as nat).push(' '));
        n = n + 1;
    }
    assert(spaces(0) =~= Seq::<char>::empty());
    assert(out@ =~= start + padded(text@, width as nat));
}

/// Appends the decimal digits of `n`, padded on the right to at least `width` characters.
fn push_padded_decimal(out: &mut String, n: u64, width: usize)
    ensures
        final(out)@ == old(out)@ + padded(decimal(n as nat), width as nat),
{
    let digits = decimal_string(n);
    push_padded(out, digits.as_str(), width);
}

// ---------------------------------------------------------------------------
// The shop

/// A crop's row in the shop: a marker on the selected crop, the name, and
/// then the seeds held, the seed price and the produce held, or, while the
/// crop is locked, the earnings that unlock it.
pub open spec fn crop_shop_line_of(g: GameModel, c: CropDefinition, selected: bool) -> Seq<char> {
    let marker = if selected {
        ">"@
    } else {
        " "@
    };
    let head = marker + " "@ + padded(c.name@, 8);
    if g.run_earnings >= c.unlock_earnings {
        head + " s"@ + padded(decimal(count_of(g.seeds, c.id@) as nat), 2) + " $"@ + padded(
            decimal(c.seed_price as nat),
            4,
        ) + " p"@ + decimal(count_of(g.produce, c.id@) as nat)
    } else {
        head + " lock $"@ + decimal(c.unlock_earnings as nat)
    }
}

/// A machine's row in the shop at position `index`: its key, the name, and
/// then the earnings that unlock it, or its level and the price of the next one.
pub open spec fn upgrade_shop_line_of(g: GameModel, u: UpgradeDefinition, index: nat) -> Seq<char> {
    let level = upgrade_state_of(g.upgrades, u.id@).level;
    let head = decimal(index + 1) + " "@ + padded(u.name@, 12);
    if g.run_earnings < u.unlock_earnings {
        head + " ≥$"@ + decimal(u.unlock_earnings as nat)
    } else {
        head + " L"@ + decimal(level as nat) + " $"@ + decimal(upgrade_cost_of(g, u) as nat)
    }
}

impl GameState {
    /// The shop row of the catalog's crop at `index`.
    pub fn crop_shop_line(&self, catalog: &CropCatalog, index: usize) -> (res: String)
        requires
            index < catalog.crops@.len(),
        ensures
            res@ == crop_shop_line_of(self@, catalog.crops@[index as int], index == self.selected_crop),
    {
        let crop = &catalog.crops[index];
        let mut line = String::new();
        if index == self.selected_crop {
            line.append(">");
        } else {
            line.append(" ");
        }
        line.append(" ");
        push_padded(&mut line, crop.name.as_str(), 8);
        if self.run_earnings >= crop.unlock_earnings {
            let seeds = match self.seeds.get(crop.id.as_str()) {
                Some(n) => n,
                None => 0,
            };
            let produce = match self.produce.get(crop.id.as_str()) {
                Some(n) => n,
                None => 0,
            };
            line.append(" s");
            push_padded_decimal(&mut line, seeds as u64, 2);
            line.append(" $");
            push_padded_decimal(&mut line, crop.seed_price, 4);
            line.append(" p");
            push_decimal(&mut line, produce as u64);
        } else {
            line.append(" lock $");
            push_decimal(&mut line, crop.unlock_earnings);
        }
        assert(line@ =~= crop_shop_line_of(self@, catalog.crops@[index as int], index == self.selected_crop));
        line
    }

    /// The shop row of the catalog's machine at `index`.
    pub fn upgrade_shop_line(&self, catalog: &UpgradeCatalog, index: usize) -> (res: String)
        requires
            index < catalog.upgrades@.len(),
        ensures
            res@ == upgrade_shop_line_of(self@, catalog.upgrades@[index as int], index as nat),
    {
        let upgrade = &catalog.upgrades[index];
        let level = self.upgrade_level(upgrade.id.as_str());
        let mut line = String::new();
        let count = catalog.upgrades.len();
        push_decimal(&mut line, (index + 1) as u64);
        line.append(" ");
        push_padded(&mut line, upgrade.name.as_str(), 12);
        if self.run_earnings < upgrade.unlock_earnings {
            line.append(" ≥$");
            push_decimal(&mut line, upgrade.unlock_earnings);
        } else {
            line.append(" L");
            push_decimal(&mut line, level as u64);
            line.append(" $");
            push_decimal(&mut line, self.upgrade_cost(upgrade));
        }
        assert(line@ =~= upgrade_shop_line_of(self@, catalog.upgrades@[index as int], index as nat));
        line
    }
}

/// The shop's row for buying one more row of land.
pub open spec fn land_row_line_of(g: GameModel) -> Seq<char> {
    " LAND  n row     $"@ + decimal(row_cost_of(g) as nat)
}

/// The shop's row for buying one more column of land.
pub open spec fn land_column_line_of(g: GameModel) -> Seq<char> {
    "       m column  $"@ + decimal(column_cost_of(g) as nat)
}

/// The shop's reset row; once armed, it warns that a second press deletes everything.
pub open spec fn reset_line_of(armed: bool) -> Seq<char> {
    if armed {
        " RESET  x again · DELETE ALL PROGRESS"@
    } else {
        " RESET  x · delete progress"@
    }
}

/// The shop's reset row.
pub fn reset_line(armed: bool) -> (res: String)
    ensures
        res@ == reset_line_of(armed),
{
    if armed {
        String::from_str(" RESET  x again · DELETE ALL PROGRESS")
    } else {
        String::from_str(" RESET  x · delete progress")
    }
}

/// The shop's row for a rebirth, with the earnings it needs.
pub open spec fn rebirth_line_of(g: GameModel) -> Seq<char> {
    " REBIRTH  r · need $"@ + decimal(rebirth_requirement_of(g) as nat)
}

impl GameState {
    /// The shop's row for buying one more row of land.
    pub fn land_row_line(&self) -> (res: String)
        requires
            self.rows >= 1,
            row_cost_of(self@) <= u64::MAX,
        ensures
            res@ == land_row_line_of(self@),
    {
        let mut line = String::new();
        line.append(" LAND  n row     $");
        push_decimal(&mut line, self.row_cost());
        line
    }

    /// The shop's row for buying one more column of land.
    pub fn land_column_line(&self) -> (res: String)
        requires
            self.cols >= 1,
            column_cost_of(self@) <= u64::MAX,
        ensures
            res@ == land_column_line_of(self@),
    {
        let mut line = String::new();
        line.append("       m column  $");
        push_decimal(&mut line, self.column_cost());
        line
    }

    /// The shop's row for a rebirth.
    pub fn rebirth_line(&self) -> (res: String)
        ensures
            res@ == rebirth_line_of(self@),
    {
        let mut line = String::new();
        line.append(" REBIRTH  r · need $");
        push_decimal(&mut line, self.rebirth_requirement());
        line
    }
}

// ---------------------------------------------------------------------------
// The field

/// The mark of a growth stage in the compact layout.
pub open spec fn stage_mark(stage: int) -> Seq<char> {
    if stage == 0 {
        "o"@
    } else if stage == 1 {
        "i"@
    } else if stage == 2 {
        "Y"@
    } else {
        "*"@
    }
}

/// What a tile shows on its text row `art_row` (the compact layout shows one
/// row, the full layout two), and whether it shows a ripe crop.
pub open spec fn tile_text_of(t: TileState, crops: Seq<CropDefinition>, compatibility: bool, art_row: int) -> (
    Seq<char>,
    bool,
) {
    match t {
        TileState::Untilled => (
            if compatibility {
                "##"@
            } else {
                "▓▓▓"@
            },
            false,
        ),
        TileState::Tilled => (
            if compatibility {
                ".."@
            } else if art_row == 0 {
                " ░ "@
            } else {
                "░░░"@
            },
            false,
        ),
        TileState::Planted { crop_id, progress_ms } => {
            let c = lookup_crop(crops, crop_id@)->0;
            let stage = growth_stage_of(progress_ms, c.grow_seconds) as int;
            (
                if compatibility {
                    stage_mark(stage) + " "@
                } else {
                    c.art[stage][art_row]@
                },
                stage == 3,
            )
        },
    }
}

/// How many of the first `n` tiles hold a ripe crop.
pub open spec fn ripe_count(tiles: Seq<TileState>, crops: Seq<CropDefinition>, n: nat) -> nat
    decreases n,
{
    if n == 0 || n > tiles.len() {
        0
    } else {
        ripe_count(tiles, crops, (n - 1) as nat) + if is_ripe(tiles[n - 1], crops) {
            1nat
        } else {
            0nat
        }
    }
}

/// The field's title: its size, its ripe crops and the first tile in view.
pub open spec fn field_title_of(g: GameModel, ready: nat, offset_row: u32, offset_col: u32, compatibility: bool) -> Seq<
    char,
> {
    if compatibility {
        "FARM "@ + decimal(g.rows as nat) + "x"@ + decimal(g.cols as nat) + " | "@ + decimal(ready) + " ready | view "@
            + decimal((offset_row + 1) as nat) + ","@ + decimal((offset_col + 1) as nat)
    } else {
        " FIELD  "@ + decimal(g.rows as nat) + "×"@ + decimal(g.cols as nat) + "  ·  "@ + decimal(ready)
            + " ready  ·  view "@ + decimal((offset_row + 1) as nat) + ","@ + decimal((offset_col + 1) as nat) + " "@
    }
}

/// The field rows that fit an area `height` cells high, frame included.
pub open spec fn window_rows_of(height: u16, compatibility: bool) -> int {
    (if height >= 2 { height - 2 } else { 0 }) / (if compatibility { 1int } else { 2int })
}

/// The field columns drawn in an area `width` cells wide, frame included: at least one.
pub open spec fn window_cols_of(width: u16, compatibility: bool) -> int {
    let fitting = (if width >= 2 { width - 2 } else { 0 }) / (if compatibility { 2int } else { 4int });
    if fitting < 1 { 1 } else { fitting }
}

/// The ends of the part of the field drawn in an area of `width` by `height`
/// cells: rows and columns from the view's first ones up to, not including,
/// these ends.
pub open spec fn field_window_of(
    offset_row: u32,
    offset_col: u32,
    rows: u32,
    cols: u32,
    width: u16,
    height: u16,
    compatibility: bool,
) -> (int, int) {
    let row_end = offset_row + window_rows_of(height, compatibility);
    let col_end = offset_col + window_cols_of(width, compatibility);
    (if row_end < rows { row_end } else { rows as int }, if col_end < cols { col_end } else { cols as int })
}

/// Whether the ends of the drawn part of the field can be counted in 32 bits.
pub fn field_window_fits(offset_row: u32, offset_col: u32, width: u16, height: u16, compatibility: bool) -> (res:
    bool)
    ensures
        res == (offset_row + window_rows_of(height, compatibility) <= u32::MAX && offset_col + window_cols_of(
            width,
            compatibility,
        ) <= u32::MAX),
{
    let tile_height: u16 = if compatibility { 1 } else { 2 };
    let cell_width: u16 = if compatibility { 2 } else { 4 };
    let visible_rows = height.saturating_sub(2) / tile_height;
    let fitting_cols = width.saturating_sub(2) / cell_width;
    let visible_cols = if fitting_cols < 1 { 1 } else { fitting_cols };
    offset_row as u64 + visible_rows as u64 <= u32::MAX as u64 && offset_col as u64 + visible_cols as u64
        <= u32::MAX as u64
}

/// The ends of the part of the field drawn in an area of `width` by `height` cells.
pub fn field_window(
    offset_row: u32,
    offset_col: u32,
    rows: u32,
    cols: u32,
    width: u16,
    height: u16,
    compatibility: bool,
) -> (res: (u32, u32))
    requires
        offset_row + window_rows_of(height, compatibility) <= u32::MAX,
        offset_col + window_cols_of(width, compatibility) <= u32::MAX,
    ensures
        (res.0 as int, res.1 as int) == field_window_of(offset_row, offset_col, rows, cols, width, height, compatibility),
{
    let tile_height: u16 = if compatibility { 1 } else { 2 };
    let cell_width: u16 = if compatibility { 2 } else { 4 };
    let visible_rows = height.saturating_sub(2) / tile_height;
    let fitting_cols = width.saturating_sub(2) / cell_width;
    let visible_cols = if fitting_cols < 1 { 1 } else { fitting_cols };
    let row_end = offset_row + visible_rows as u32;
    let col_end = offset_col + visible_cols as u32;
    (if row_end < rows { row_end } else { rows }, if col_end < cols { col_end } else { cols })
}

fn tile_is_ripe(tile: &TileState, catalog: &CropCatalog) -> (res: bool)
    ensures
        res == is_ripe(*tile, catalog.crops@),
{
    match tile {
        TileState::Planted { crop_id, progress_ms } => match catalog.get(crop_id.as_str()) {
            Some(crop) => *progress_ms as u128 >= crop.grow_seconds as u128 * 1000,
            None => false,
        },
        _ => false,
    }
}

impl GameState {
    /// What the tile at a row and column shows on its text row `art_row`, and
    /// whether it shows a ripe crop.
    pub fn tile_text(
        &self,
        catalog: &CropCatalog,
        row: u32,
        col: u32,
        compatibility: bool,
        art_row: usize,
    ) -> (res: (String, bool))
        requires
            index_fits(self@, row, col),
            tile_index(self@, row, col) matches Some(i) && i < self.tiles@.len() && tile_known(
                self.tiles@[i],
                catalog.crops@,
            ),
            art_row < 2,
        ensures
            (res.0@, res.1) == tile_text_of(
                self.tiles@[tile_index(self@, row, col)->0],
                catalog.crops@,
                compatibility,
                art_row as int,
            ),
    {
        let tile = match self.tile(row, col) {
            Some(t) => t,
            None => {
                return (String::new(), false);
            },
        };
        match tile {
            TileState::Untilled => {
                if compatibility {
                    (String::from_str("##"), false)
                } else {
                    (String::from_str("▓▓▓"), false)
                }
            },
            TileState::Tilled => {
                if compatibility {
                    (String::from_str(".."), false)
                } else if art_row == 0 {
                    (String::from_str(" ░ "), false)
                } else {
                    (String::from_str("░░░"), false)
                }
            },
            TileState::Planted { crop_id, progress_ms } => {
                let crop = match catalog.get(crop_id.as_str()) {
                    Some(c) => c,
                    None => {
                        return (String::new(), false);
                    },
                };
                let stage = GameState::growth_stage(*progress_ms, crop.grow_seconds);
                let text = if compatibility {
                    let mark = if stage == 0 {
                        "o "
                    } else if stage == 1 {
                        "i "
                    } else if stage == 2 {
                        "Y "
                    } else {
                        "* "
                    };
                    proof {
                        reveal_strlit("o");
                        reveal_strlit("i");
                        reveal_strlit("Y");
                        reveal_strlit("*");
                        reveal_strlit(" ");
                        reveal_strlit("o ");
                        reveal_strlit("i ");
                        reveal_strlit("Y ");
                        reveal_strlit("* ");
                    }
                    assert(mark@ =~= stage_mark(stage as int) + " "@);
                    String::from_str(mark)
                } else {
                    crop.art[stage][art_row].clone()
                };
                (text, stage == 3)
            },
        }
    }

    /// How many tiles hold a ripe crop.
    pub fn ready_count(&self, catalog: &CropCatalog) -> (res: usize)
        ensures
            res == ripe_count(self.tiles@, catalog.crops@, self.tiles@.len()),
    {
        let n = self.tiles.len();
        let mut count: usize = 0;
        let mut i: usize = 0;
        while i < n
            invariant
                n == self.tiles@.len(),
                i <= n,
                count == ripe_count(self.tiles@, catalog.crops@, i as nat),
                count <= i,
            decreases n - i,
        {
            if tile_is_ripe(&self.tiles[i], catalog) {
                count = count + 1;
            }
            i = i + 1;
        }
        count
    }

    /// The field's title, with the first tile in view at `offset_row`, `offset_col`.
    pub fn field_title(&self, catalog: &CropCatalog, offset_row: u32, offset_col: u32, compatibility: bool) -> (res:
        String)
        requires
            offset_row < u32::MAX,
            offset_col < u32::MAX,
        ensures
            res@ == field_title_of(
                self@,
                ripe_count(self.tiles@, catalog.crops@, self.tiles@.len()),
                offset_row,
                offset_col,
                compatibility,
            ),
    {
        let ready = self.ready_count(catalog);
        let mut line = String::new();
        if compatibility {
            line.append("FARM ");
            push_decimal(&mut line, self.rows as u64);
            line.append("x");
            push_decimal(&mut line, self.cols as u64);
            line.append(" | ");
            push_decimal(&mut line, ready as u64);
            line.append(" ready | view ");
            push_decimal(&mut line, (offset_row + 1) as u64);
            line.append(",");
            push_decimal(&mut line, (offset_col + 1) as u64);
        } else {
            line.append(" FIELD  ");
            push_decimal(&mut line, self.rows as u64);
            line.append("×");
            push_decimal(&mut line, self.cols as u64);
            line.append("  ·  ");
            push_decimal(&mut line, ready as u64);
            line.append(" ready  ·  view ");
            push_decimal(&mut line, (offset_row + 1) as u64);
            line.append(",");
            push_decimal(&mut line, (offset_col + 1) as u64);
            line.append(" ");
        }
        assert(line@ =~= field_title_of(
            self@,
            ripe_count(self.tiles@, catalog.crops@, self.tiles@.len()),
            offset_row,
            offset_col,
            compatibility,
        ));
        line
    }
}

// ---------------------------------------------------------------------------
// Status lines

/// The levels held of all machines, summed.
pub open spec fn level_total(s: Seq<(Seq<char>, UpgradeState)>) -> nat
    decreases s.len(),
{
    if s.len() == 0 {
        0
    } else {
        level_total(s.drop_last()) + s.last().1.level as nat
    }
}

/// The whole percent by which crops grow faster than offline while the game
/// is open, rounded half up: the active rate times the machinery's boost.
pub open spec fn growth_bonus_of(multiplier: u64) -> nat {
    let combined = combined_multiplier_of(ACTIVE_GROWTH_MULTIPLIER, multiplier);
    if combined <= 10_000 {
        0
    } else {
        ((combined - 10_000 + 50) / 100) as nat
    }
}

/// The header's tail: the sale bonus of the rebirth tokens, the machinery's
/// levels and the growth bonus while the game is open.
pub open spec fn header_tail_of(g: GameModel, ups: Seq<UpgradeDefinition>, levels: nat) -> Seq<char> {
    "  +"@ + decimal((g.rebirth_tokens * 10) as nat) + "%  ⚙"@ + decimal(levels) + "  GROW +"@ + decimal(
        growth_bonus_of(growth_multiplier_of(g, ups)),
    ) + "%"@
}

/// The compact layout's header: money, earnings and rebirths.
pub open spec fn compact_header_of(g: GameModel) -> Seq<char> {
    "TERMINAL FARMS  $"@ + decimal(g.coins as nat) + "  earned $"@ + decimal(g.run_earnings as nat) + "  rebirth "@
        + decimal(g.rebirth_count as nat)
}

/// The full layout's note on the selected crop: seeds and produce held and
/// its growing time.
pub open spec fn crop_note_of(g: GameModel, crops: Seq<CropDefinition>) -> Seq<char> {
    let c = selected_crop_of(g, crops);
    "  ·  "@ + c.name@ + " s:"@ + decimal(count_of(g.seeds, c.id@) as nat) + " p:"@ + decimal(
        count_of(g.produce, c.id@) as nat,
    ) + "  ·  "@ + decimal(c.grow_seconds as nat) + "s"@
}

/// The compact layout's line on the selected crop: seeds held, prices and growing time.
pub open spec fn compact_crop_line_of(g: GameModel, crops: Seq<CropDefinition>) -> Seq<char> {
    let c = selected_crop_of(g, crops);
    c.name@ + " seed:"@ + decimal(count_of(g.seeds, c.id@) as nat) + " buy:$"@ + decimal(c.seed_price as nat)
        + " sell:$"@ + decimal(c.sell_price as nat) + " grow:"@ + decimal(c.grow_seconds as nat) + "s"@
}

impl GameState {
    /// The levels held of all machines, summed.
    pub fn machinery_levels(&self) -> (res: u32)
        requires
            level_total(self.upgrades.pairs()) <= u32::MAX,
        ensures
            res == level_total(self.upgrades.pairs()),
    {
        let ghost s = self.upgrades.pairs();
        let n = self.upgrades.len();
        let mut total: u32 = 0;
        let mut i: usize = 0;
        while i < n
            invariant
                s == self.upgrades.pairs(),
                n == s.len(),
                i <= n,
                total == level_total(s.take(i as int)),
                level_total(s) <= u32::MAX,
            decreases n - i,
        {
            proof {
                assert(s.take(i + 1).drop_last() =~= s.take(i as int));
                lemma_level_total_prefix(s, i + 1);
            }
            total = total + self.upgrades.value_at(i).level;
            i = i + 1;
        }
        assert(s.take(n as int) =~= s);
        total
    }

    /// Whether the levels held of all machines, summed, fit 32 bits.
    pub fn machinery_levels_fit(&self) -> (res: bool)
        ensures
            res == (level_total(self.upgrades.pairs()) <= u32::MAX),
    {
        let ghost s = self.upgrades.pairs();
        let n = self.upgrades.len();
        let mut total: u64 = 0;
        let mut i: usize = 0;
        while i < n
            invariant
                s == self.upgrades.pairs(),
                n == s.len(),
                i <= n,
                total == level_total(s.take(i as int)),
                total <= u32::MAX,
            decreases n - i,
        {
            proof {
                lemma_level_total_prefix(s, i + 1);
            }
            total = total + self.upgrades.value_at(i).level as u64;
            if total > u32::MAX as u64 {
                return false;
            }
            i = i + 1;
        }
        assert(s.take(n as int) =~= s);
        true
    }

    /// The header's tail: the sale bonus of the rebirth tokens, the
    /// machinery's levels and the growth bonus while the game is open.
    pub fn header_tail(&self, upgrade_catalog: &UpgradeCatalog) -> (res: String)
        requires
            self.rebirth_tokens * 10 <= u32::MAX,
            level_total(self.upgrades.pairs()) <= u32::MAX,
        ensures
            res@ == header_tail_of(self@, upgrade_catalog.upgrades@, level_total(self.upgrades.pairs())),
    {
        let levels = self.machinery_levels();
        let combined = combine_multipliers(ACTIVE_GROWTH_MULTIPLIER, self.growth_upgrade_multiplier(upgrade_catalog));
        let bonus: u64 = if combined <= 10_000 {
            0
        } else {
            (combined - 10_000 + 50) / 100
        };
        let mut line = String::new();
        line.append("  +");
        push_decimal(&mut line, (self.rebirth_tokens * 10) as u64);
        line.append("%  ⚙");
        push_decimal(&mut line, levels as u64);
        line.append("  GROW +");
        push_decimal(&mut line, bonus);
        line.append("%");
        assert(line@ =~= header_tail_of(self@, upgrade_catalog.upgrades@, level_total(self.upgrades.pairs())));
        line
    }

    /// The compact layout's header.
    pub fn compact_header(&self) -> (res: String)
        ensures
            res@ == compact_header_of(self@),
    {
        let mut line = String::new();
        line.append("TERMINAL FARMS  $");
        push_decimal(&mut line, self.coins);
        line.append("  earned $");
        push_decimal(&mut line, self.run_earnings);
        line.append("  rebirth ");
        push_decimal(&mut line, self.rebirth_count as u64);
        assert(line@ =~= compact_header_of(self@));
        line
    }

    /// The full layout's note on the selected crop.
    pub fn crop_note(&self, catalog: &CropCatalog) -> (res: String)
        requires
            catalog.crops@.len() > 0,
        ensures
            res@ == crop_note_of(self@, catalog.crops@),
    {
        let crop = self.selected_definition(catalog);
        let seeds = match self.seeds.get(crop.id.as_str()) {
            Some(n) => n,
            None => 0,
        };
        let produce = match self.produce.get(crop.id.as_str()) {
            Some(n) => n,
            None => 0,
        };
        let mut line = String::new();
        line.append("  ·  ");
        line.append(crop.name.as_str());
        line.append(" s:");
        push_decimal(&mut line, seeds as u64);
        line.append(" p:");
        push_decimal(&mut line, produce as u64);
        line.append("  ·  ");
        push_decimal(&mut line, crop.grow_seconds);
        line.append("s");
        assert(line@ =~= crop_note_of(self@, catalog.crops@));
        line
    }

    /// The compact layout's line on the selected crop.
    pub fn compact_crop_line(&self, catalog: &CropCatalog) -> (res: String)
        requires
            catalog.crops@.len() > 0,
        ensures
            res@ == compact_crop_line_of(self@, catalog.crops@),
    {
        let crop = self.selected_definition(catalog);
        let seeds = match self.seeds.get(crop.id.as_str()) {
            Some(n) => n,
            None => 0,
        };
        let mut line = String::new();
        line.append(crop.name.as_str());
        line.append(" seed:");
        push_decimal(&mut line, seeds as u64);
        line.append(" buy:$");
        push_decimal(&mut line, crop.seed_price);
        line.append(" sell:$");
        push_decimal(&mut line, crop.sell_price);
        line.append(" grow:");
        push_decimal(&mut line, crop.grow_seconds);
        line.append("s");
        assert(line@ =~= compact_crop_line_of(self@, catalog.crops@));
        line
    }
}

proof fn lemma_level_total_prefix(s: Seq<(Seq<char>, UpgradeState)>, n: int)
    requires
        0 < n <= s.len(),
    ensures
        level_total(s.take(n)) == level_total(s.take(n - 1)) + s[n - 1].1.level,
        level_total(s.take(n)) <= level_total(s),
    decreases s.len() - n,
{
    assert(s.take(n).drop_last() =~= s.take(n - 1));
    if n < s.len() {
        lemma_level_total_prefix(s, n + 1);
    } else {
        assert(s.take(n) =~= s);
    }
}

} // verus!
