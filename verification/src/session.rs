//! The interactive session: cursor, scrolling, status line, and what each key
//! press, mouse event and clock tick does to the farm.
use vstd::prelude::*;

use crate::data::{CropCatalog, CropDefinition, UpgradeCatalog, UpgradeDefinition};
use crate::game::{
    apply_elapsed_step, buy_column_safe, buy_column_step, buy_row_safe, buy_row_step, buy_seed_safe,
    buy_seed_step, buy_upgrade_step, combine_multipliers, combined_multiplier_of, growth_multiplier_of,
    buy_upgrade_safe, harvesters, lemma_headroom_makes_machines_safe, new_game, produce_headroom, rebirth_safe, rebirth_step, run_machines,
    run_machines_safe, saturate, saturating_mul, select_next_of, select_previous_of, selected_crop_of,
    sell_step, texts, use_tile_safe, use_tile_step, ACTIVE_GROWTH_MULTIPLIER, ActionResult, GameModel,
    GameState, MAX_CYCLES, Outcome,
};
use crate::layout::{
    over_shop, over_shop_of, shop_left_of, shop_target_at, shop_target_scrolled, shop_window, shop_window_of,
    viewport_capacity, viewport_capacity_of, ShopTarget,
};
use crate::text::{decimal, joined, owned, push_decimal};

verus! {

/// A key press, as far as the game tells keys apart.
#[derive(Debug, Clone, Copy, PartialEq, Eq, Structural)]
pub enum Key {
    Char(char),
    Up,
    Down,
    Left,
    Right,
    Enter,
    Esc,
    Other,
}

/// The kind of a mouse event.
#[derive(Debug, Clone, Copy, PartialEq, Eq, Structural)]
pub enum MouseKind {
    LeftDown,
    RightDown,
    ScrollUp,
    ScrollDown,
    Moved,
    Other,
}

/// A mouse event at a screen cell.
#[derive(Debug, Clone, Copy, PartialEq, Eq, Structural)]
pub struct MouseInput {
    pub kind: MouseKind,
    pub column: u16,
    pub row: u16,
}

// ---------------------------------------------------------------------------
// Small rules

/// Moving along one axis: down to zero, up to the last position before `bound`.
pub open spec fn move_axis_of(value: u32, delta: i32, bound: u32) -> u32 {
    if delta < 0 {
        if value + delta < 0 { 0 } else { (value + delta) as u32 }
    } else {
        let moved = if value + delta > u32::MAX { u32::MAX as int } else { value + delta };
        let last = if bound >= 1 { bound - 1 } else { 0 };
        (if moved < last { moved } else { last }) as u32
    }
}

/// Moves a position along one axis by `delta`, staying within `0..bound`.
pub fn move_axis(value: u32, delta: i32, bound: u32) -> (res: u32)
    ensures
        res == move_axis_of(value, delta, bound),
{
    if delta < 0 {
        let magnitude: u32 = if delta == i32::MIN { 2_147_483_648u32 } else { (-delta) as u32 };
        value.saturating_sub(magnitude)
    } else {
        let moved = value.saturating_add(delta as u32);
        let last = bound.saturating_sub(1);
        if moved < last { moved } else { last }
    }
}

/// A compact duration: days and hours, hours and minutes, minutes, or seconds.
pub open spec fn duration_text_of(seconds: u64) -> Seq<char> {
    let days = seconds / 86_400;
    let hours = (seconds % 86_400) / 3_600;
    let minutes = (seconds % 3_600) / 60;
    if days > 0 {
        decimal(days as nat) + "d "@ + decimal(hours as nat) + "h"@
    } else if hours > 0 {
        decimal(hours as nat) + "h "@ + decimal(minutes as nat) + "m"@
    } else if minutes > 0 {
        decimal(minutes as nat) + "m"@
    } else {
        decimal(seconds as nat) + "s"@
    }
}

/// Writes a duration compactly, such as "1d 1h" or "1m".
pub fn duration_text(seconds: u64) -> (res: String)
    ensures
        res@ == duration_text_of(seconds),
{
    let days = seconds / 86_400;
    let hours = (seconds % 86_400) / 3_600;
    let minutes = (seconds % 3_600) / 60;
    let mut text = String::new();
    if days > 0 {
        push_decimal(&mut text, days);
        text.append("d ");
        push_decimal(&mut text, hours);
        text.append("h");
    } else if hours > 0 {
        push_decimal(&mut text, hours);
        text.append("h ");
        push_decimal(&mut text, minutes);
        text.append("m");
    } else if minutes > 0 {
        push_decimal(&mut text, minutes);
        text.append("m");
    } else {
        push_decimal(&mut text, seconds);
        text.append("s");
    }
    assert(text@ =~= duration_text_of(seconds));
    text
}

/// Seconds since the epoch as a signed timestamp, capped at `i64::MAX`.
pub fn unix_time(seconds_since_epoch: u64) -> (res: i64)
    ensures
        res == (if seconds_since_epoch > i64::MAX { i64::MAX as int } else { seconds_since_epoch as int }),
{
    if seconds_since_epoch > i64::MAX as u64 {
        i64::MAX
    } else {
        seconds_since_epoch as i64
    }
}

// ---------------------------------------------------------------------------
// Terminal settings

/// A character in upper case, for the ASCII letters.
pub open spec fn ascii_upper(c: char) -> char {
    if 'a' <= c <= 'z' {
        ((c as u32) - 32) as char
    } else {
        c
    }
}

/// `pattern` occurs in `value` at position `i`, letter case aside.
pub open spec fn occurs_at(value: Seq<char>, pattern: Seq<char>, i: int) -> bool {
    &&& 0 <= i
    &&& i + pattern.len() <= value.len()
    &&& forall|k: int| 0 <= k < pattern.len() ==> ascii_upper(#[trigger] value[i + k]) == pattern[k]
}

/// A locale setting names the UTF-8 character set: it holds "UTF-8" or
/// "UTF8", in any letter case.
pub open spec fn names_utf8(value: Seq<char>) -> bool {
    (exists|i: int| occurs_at(value, "UTF-8"@, i)) || (exists|i: int| occurs_at(value, "UTF8"@, i))
}

/// The locale allows Unicode drawing: one of LC_ALL, LC_CTYPE and LANG is set
/// and names UTF-8.
pub open spec fn unicode_locale_of(lc_all: Option<Seq<char>>, lc_ctype: Option<Seq<char>>, lang: Option<Seq<char>>) -> bool {
    ||| lc_all matches Some(v) && names_utf8(v)
    ||| lc_ctype matches Some(v) && names_utf8(v)
    ||| lang matches Some(v) && names_utf8(v)
}

/// The view of a text that may be absent.
pub open spec fn text_view(t: Option<&str>) -> Option<Seq<char>> {
    match t {
        Some(s) => Some(s@),
        None => None,
    }
}

/// Whether `pattern` (upper case) occurs in `value` at position `i`, letter case aside.
fn occurs_at_position(value: &str, pattern: &str, i: usize) -> (res: bool)
    requires
        i + pattern@.len() <= value@.len(),
    ensures
        res == occurs_at(value@, pattern@, i as int),
{
    let len = value.unicode_len();
    let n = pattern.unicode_len();
    let mut k: usize = 0;
    while k < n
        invariant
            len == value@.len(),
            n == pattern@.len(),
            i + n <= len,
            k <= n,
            forall|j: int| 0 <= j < k ==> ascii_upper(#[trigger] value@[i + j]) == pattern@[j],
        decreases n - k,
    {
        let c = value.get_char(i + k);
        let p = pattern.get_char(k);
        let same = if 'a' <= c && c <= 'z' {
            (c as u32) - 32 == p as u32
        } else {
            c == p
        };
        if !same {
            return false;
        }
        k = k + 1;
    }
    true
}

/// Whether `pattern` (upper case) occurs anywhere in `value`, letter case aside.
fn occurs_in(value: &str, pattern: &str) -> (res: bool)
    ensures
        res == exists|i: int| occurs_at(value@, pattern@, i),
{
    let len = value.unicode_len();
    let n = pattern.unicode_len();
    if n > len {
        return false;
    }
    let mut i: usize = 0;
    while i <= len - n
        invariant
            len == value@.len(),
            n == pattern@.len(),
            n <= len,
            i <= len - n + 1,
            forall|j: int| 0 <= j < i ==> !occurs_at(value@, pattern@, j),
        decreases len - i,
    {
        if occurs_at_position(value, pattern, i) {
            return true;
        }
        i = i + 1;
    }
    false
}

/// Whether a locale setting names the UTF-8 character set.
pub fn names_utf8_setting(value: &str) -> (res: bool)
    ensures
        res == names_utf8(value@),
{
    occurs_in(value, "UTF-8") || occurs_in(value, "UTF8")
}

/// Whether the locale allows Unicode drawing, from the values of LC_ALL,
/// LC_CTYPE and LANG where they are set.
pub fn unicode_locale(lc_all: Option<&str>, lc_ctype: Option<&str>, lang: Option<&str>) -> (res: bool)
    ensures
        res == unicode_locale_of(text_view(lc_all), text_view(lc_ctype), text_view(lang)),
{
    let all = match lc_all {
        Some(v) => names_utf8_setting(v),
        None => false,
    };
    let ctype = match lc_ctype {
        Some(v) => names_utf8_setting(v),
        None => false,
    };
    let language = match lang {
        Some(v) => names_utf8_setting(v),
        None => false,
    };
    all || ctype || language
}

/// Colours are turned off when asked for, when NO_COLOR is set, or on a dumb terminal.
pub fn colors_disabled(no_color_flag: bool, no_color_set: bool, term: Option<&str>) -> (res: bool)
    ensures
        res == (no_color_flag || no_color_set || text_view(term) == Some("dumb"@)),
{
    if no_color_flag || no_color_set {
        return true;
    }
    match term {
        Some(t) => {
            let dumb = owned("dumb");
            let given = owned(t);
            given == dumb
        },
        None => false,
    }
}

/// How long the farm goes unsaved at most while the game is open, in milliseconds.
pub const AUTOSAVE_MS: u64 = 30_000;

/// The farm is saved after an input that changed it or a clock tick on which
/// a machine ran, and otherwise once `AUTOSAVE_MS` passed since the last save.
pub fn save_due(changed: bool, since_save_ms: u64) -> (res: bool)
    ensures
        res == (changed || since_save_ms >= AUTOSAVE_MS),
{
    changed || since_save_ms >= AUTOSAVE_MS
}

/// The status line after starting up: how long the farm grew while closed.
pub open spec fn startup_status_of(offline_seconds: i64) -> Seq<char> {
    if offline_seconds > 0 {
        "Offline growth: "@ + duration_text_of(offline_seconds as u64)
    } else {
        "Ready"@
    }
}

/// The status line after starting up.
pub fn startup_status(offline_seconds: i64) -> (res: String)
    ensures
        res@ == startup_status_of(offline_seconds),
{
    if offline_seconds > 0 {
        joined("Offline growth: ", duration_text(offline_seconds as u64).as_str())
    } else {
        owned("Ready")
    }
}

/// Seconds the farm was closed: from the last visit to now, never negative.
pub open spec fn offline_seconds_of(last_seen_utc: i64, now_utc: i64) -> i64 {
    let d = now_utc - last_seen_utc;
    if d > i64::MAX {
        i64::MAX
    } else if d < 0 {
        0
    } else {
        d as i64
    }
}

/// The time the farm was closed, in milliseconds.
pub open spec fn offline_millis_of(last_seen_utc: i64, now_utc: i64) -> u64 {
    saturate(offline_seconds_of(last_seen_utc, now_utc) * 1000)
}

/// The farm after its crops grew for the time it was closed, at the
/// machinery's growth multiplier.
pub open spec fn offline_grown(g: GameModel, ups: Seq<UpgradeDefinition>, now_utc: i64) -> GameModel {
    apply_elapsed_step(g, offline_millis_of(g.last_seen_utc, now_utc), growth_multiplier_of(g, ups))
}

/// Catching up after the farm was closed: crops grow for the time away at the
/// machinery's growth multiplier, then the machines take their turn for that
/// time, and the visit is stamped with `now_utc`.
pub open spec fn catch_up_step(
    g: GameModel,
    crops: Seq<CropDefinition>,
    ups: Seq<UpgradeDefinition>,
    now_utc: i64,
) -> GameModel {
    let elapsed = offline_millis_of(g.last_seen_utc, now_utc);
    GameModel {
        last_seen_utc: now_utc,
        ..run_machines(offline_grown(g, ups, now_utc), ups, crops, elapsed, ups.len()).0
    }
}

/// The machines can take their turn for the time the farm was closed.
pub open spec fn catch_up_safe(
    g: GameModel,
    crops: Seq<CropDefinition>,
    ups: Seq<UpgradeDefinition>,
    now_utc: i64,
) -> bool {
    run_machines_safe(
        offline_grown(g, ups, now_utc),
        ups,
        crops,
        offline_millis_of(g.last_seen_utc, now_utc),
        ups.len(),
    )
}

impl GameState {
    /// Catches up for the time the farm was closed: the crops grow and the
    /// machines run for that time. Gives that time in seconds.
    pub fn catch_up(&mut self, catalog: &CropCatalog, upgrade_catalog: &UpgradeCatalog, now_utc: i64) -> (res: i64)
        requires
            catch_up_safe(old(self)@, catalog.crops@, upgrade_catalog.upgrades@, now_utc),
        ensures
            res == offline_seconds_of(old(self).last_seen_utc, now_utc),
            final(self)@ == catch_up_step(old(self)@, catalog.crops@, upgrade_catalog.upgrades@, now_utc),
    {
        let difference: i128 = now_utc as i128 - self.last_seen_utc as i128;
        let offline: i64 = if difference > i64::MAX as i128 {
            i64::MAX
        } else if difference < 0 {
            0
        } else {
            difference as i64
        };
        let multiplier = self.growth_upgrade_multiplier(upgrade_catalog);
        let millis: u64 = saturating_mul(offline as u64, 1000);
        self.apply_elapsed(millis, multiplier);
        let _messages = self.run_automation(millis, catalog, upgrade_catalog);
        self.last_seen_utc = now_utc;
        offline
    }

    /// Whether catching up is sure to run: a crop is on offer, and every
    /// produce count has room for a full turn of every harvesting machine.
    pub fn catch_up_is_safe(&self, catalog: &CropCatalog, upgrade_catalog: &UpgradeCatalog, now_utc: i64) -> (res:
        bool)
        ensures
            res == (catalog.crops@.len() > 0 && produce_headroom(
                self@,
                MAX_CYCLES * harvesters(upgrade_catalog.upgrades@, upgrade_catalog.upgrades@.len()),
            )),
            res ==> catch_up_safe(self@, catalog.crops@, upgrade_catalog.upgrades@, now_utc),
    {
        let res = self.machines_are_safe(catalog, upgrade_catalog);
        proof {
            let g = self@;
            let ups = upgrade_catalog.upgrades@;
            let grown = offline_grown(g, ups, now_utc);
            assert(grown.produce == g.produce);
            if res {
                let b = MAX_CYCLES * harvesters(ups, ups.len());
                assert forall|k: Seq<char>| #[trigger] crate::game::count_of(grown.produce, k) + b < u32::MAX by {
                    assert(crate::game::count_of(g.produce, k) + b < u32::MAX);
                }
                lemma_headroom_makes_machines_safe(
                    grown,
                    ups,
                    catalog.crops@,
                    offline_millis_of(g.last_seen_utc, now_utc),
                );
            }
        }
        res
    }
}

// ---------------------------------------------------------------------------
// The session

/// The interactive session: the farm, the catalogs, and the screen state.
#[derive(Debug)]
pub struct App {
    pub game: GameState,
    pub catalog: CropCatalog,
    pub upgrade_catalog: UpgradeCatalog,
    pub cursor_row: u32,
    pub cursor_col: u32,
    pub offset_row: u32,
    pub offset_col: u32,
    pub status: String,
    pub hovered_shop: Option<ShopTarget>,
    /// How far the shop's crop list is scrolled.
    pub shop_offset: usize,
    /// The reset key was pressed once; a second press starts a new farm.
    pub reset_armed: bool,
    pub force_compatibility: bool,
    pub no_color: bool,
    pub quit: bool,
    pub redraw: bool,
}

/// The mathematical picture of a session.
pub struct AppModel {
    pub game: GameModel,
    pub crops: Seq<CropDefinition>,
    pub ups: Seq<UpgradeDefinition>,
    pub cursor_row: u32,
    pub cursor_col: u32,
    pub offset_row: u32,
    pub offset_col: u32,
    pub status: Seq<char>,
    pub hovered_shop: Option<ShopTarget>,
    pub shop_offset: usize,
    pub reset_armed: bool,
    pub force_compatibility: bool,
    pub no_color: bool,
    pub quit: bool,
    pub redraw: bool,
}

impl View for App {
    type V = AppModel;

    open spec fn view(&self) -> AppModel {
        AppModel {
            game: self.game@,
            crops: self.catalog.crops@,
            ups: self.upgrade_catalog.upgrades@,
            cursor_row: self.cursor_row,
            cursor_col: self.cursor_col,
            offset_row: self.offset_row,
            offset_col: self.offset_col,
            status: self.status@,
            hovered_shop: self.hovered_shop,
            shop_offset: self.shop_offset,
            reset_armed: self.reset_armed,
            force_compatibility: self.force_compatibility,
            no_color: self.no_color,
            quit: self.quit,
            redraw: self.redraw,
        }
    }
}

/// The compact layout is used when asked for or when the screen is under 80 by 24.
pub open spec fn compatibility_of(a: AppModel, width: u16, height: u16) -> bool {
    a.force_compatibility || width < 80 || height < 24
}

/// `a - b`, but not below zero.
pub open spec fn sat_sub(a: int, b: int) -> int {
    if a >= b { a - b } else { 0 }
}

/// The smaller of two numbers.
pub open spec fn min_of(a: int, b: int) -> int {
    if a < b { a } else { b }
}

/// The scroll offset that keeps the cursor within `visible` positions.
pub open spec fn follow_cursor(cursor: u32, offset: u32, visible: u32) -> int {
    if cursor < offset {
        cursor as int
    } else if cursor >= offset + visible {
        cursor + 1 - visible
    } else {
        offset as int
    }
}

/// Scrolling so the cursor is on screen, then not past the field's end.
pub open spec fn keep_visible_step(a: AppModel, width: u16, height: u16) -> AppModel {
    let (visible_rows, visible_cols) = viewport_capacity_of(width, height, compatibility_of(a, width, height));
    let row = follow_cursor(a.cursor_row, a.offset_row, visible_rows);
    let col = follow_cursor(a.cursor_col, a.offset_col, visible_cols);
    AppModel {
        offset_row: min_of(row, sat_sub(a.game.rows as int, visible_rows as int)) as u32,
        offset_col: min_of(col, sat_sub(a.game.cols as int, visible_cols as int)) as u32,
        ..a
    }
}

/// Following the cursor stays within the screen arithmetic.
pub open spec fn keep_visible_safe(a: AppModel, width: u16, height: u16) -> bool {
    let (visible_rows, visible_cols) = viewport_capacity_of(width, height, compatibility_of(a, width, height));
    &&& a.cursor_row >= a.offset_row ==> a.offset_row + visible_rows <= u32::MAX
    &&& a.cursor_row >= a.offset_row + visible_rows ==> a.cursor_row < u32::MAX
    &&& a.cursor_col >= a.offset_col ==> a.offset_col + visible_cols <= u32::MAX
    &&& a.cursor_col >= a.offset_col + visible_cols ==> a.cursor_col < u32::MAX
}

/// Moving the cursor within the field.
pub open spec fn move_cursor_step(a: AppModel, row_delta: i32, col_delta: i32) -> AppModel {
    AppModel {
        cursor_row: move_axis_of(a.cursor_row, row_delta, a.game.rows),
        cursor_col: move_axis_of(a.cursor_col, col_delta, a.game.cols),
        redraw: true,
        ..a
    }
}

/// Taking an action's result: the new farm, its message on the status line.
pub open spec fn apply_step(a: AppModel, result: (GameModel, Outcome)) -> (AppModel, bool) {
    (AppModel { game: result.0, status: result.1.message, redraw: true, ..a }, result.1.changed)
}

/// "Selected <crop>" after choosing another crop.
pub open spec fn select_step(a: AppModel, g: GameModel) -> (AppModel, bool) {
    (AppModel { game: g, status: "Selected "@ + selected_crop_of(g, a.crops).name@, redraw: true, ..a }, true)
}

/// A rebirth puts the cursor and the view back at the first tile.
pub open spec fn rebirth_app_step(a: AppModel) -> (AppModel, bool) {
    let (a1, changed) = apply_step(a, rebirth_step(a.game, a.crops));
    if changed {
        (AppModel { cursor_row: 0, cursor_col: 0, offset_row: 0, offset_col: 0, ..a1 }, true)
    } else {
        (a1, false)
    }
}

/// Any input but the reset command disarms a pending reset.
pub open spec fn disarmed(a: AppModel) -> AppModel {
    AppModel { reset_armed: false, redraw: a.redraw || a.reset_armed, ..a }
}

/// The session as a key press finds it: any key but 'x' disarms a pending reset.
pub open spec fn armed_for_key(a: AppModel, key: Key) -> AppModel {
    if key == Key::Char('x') {
        a
    } else {
        disarmed(a)
    }
}

/// The reset command: the first one arms it; a second one in a row replaces
/// the farm with a new one and puts the cursor and the view at the first tile.
pub open spec fn reset_step(a: AppModel) -> (AppModel, bool) {
    if a.reset_armed {
        (
            AppModel {
                game: new_game(a.crops, a.game.last_seen_utc),
                reset_armed: false,
                cursor_row: 0,
                cursor_col: 0,
                offset_row: 0,
                offset_col: 0,
                status: "Started a new farm"@,
                redraw: true,
                ..a
            },
            true,
        )
    } else {
        (AppModel { reset_armed: true, status: "Press x again to delete all progress"@, redraw: true, ..a }, false)
    }
}

/// A reset can start a new farm: there is a first crop to start with.
pub open spec fn reset_safe(a: AppModel) -> bool {
    a.reset_armed ==> a.crops.len() > 0
}

/// What a key press does, before the view follows the cursor.
pub open spec fn key_action(a: AppModel, key: Key) -> (AppModel, bool) {
    match key {
        Key::Esc => (AppModel { quit: true, redraw: true, ..a }, false),
        Key::Up => (move_cursor_step(a, -1i32, 0), false),
        Key::Down => (move_cursor_step(a, 1, 0), false),
        Key::Left => (move_cursor_step(a, 0, -1i32), false),
        Key::Right => (move_cursor_step(a, 0, 1), false),
        Key::Enter => apply_step(a, use_tile_step(a.game, a.cursor_row, a.cursor_col, a.crops)),
        Key::Other => (a, false),
        Key::Char(c) => if c == 'q' {
            (AppModel { quit: true, redraw: true, ..a }, false)
        } else if c == 'w' || c == 'k' {
            (move_cursor_step(a, -1i32, 0), false)
        } else if c == 's' || c == 'j' {
            (move_cursor_step(a, 1, 0), false)
        } else if c == 'a' || c == 'h' {
            (move_cursor_step(a, 0, -1i32), false)
        } else if c == 'd' || c == 'l' {
            (move_cursor_step(a, 0, 1), false)
        } else if c == ' ' {
            apply_step(a, use_tile_step(a.game, a.cursor_row, a.cursor_col, a.crops))
        } else if c == '[' {
            select_step(a, select_previous_of(a.game, a.crops))
        } else if c == ']' {
            select_step(a, select_next_of(a.game, a.crops))
        } else if c == 'b' {
            apply_step(a, buy_seed_step(a.game, a.crops))
        } else if c == 'v' {
            apply_step(a, sell_step(a.game, a.crops))
        } else if c == 'n' {
            apply_step(a, buy_row_step(a.game))
        } else if c == 'm' {
            apply_step(a, buy_column_step(a.game))
        } else if c == 'r' {
            rebirth_app_step(a)
        } else if c == 'x' {
            reset_step(a)
        } else if '1' <= c <= '5' {
            apply_step(a, buy_upgrade_step(a.game, (c as int) - ('1' as int), a.ups))
        } else {
            (a, false)
        },
    }
}

/// What a key press does: its action, then the view follows the cursor.
pub open spec fn key_step(a: AppModel, key: Key, width: u16, height: u16) -> (AppModel, bool) {
    let (a1, changed) = key_action(armed_for_key(a, key), key);
    (keep_visible_step(a1, width, height), changed)
}

/// The action a key press triggers can run.
pub open spec fn key_action_safe(a: AppModel, key: Key) -> bool {
    match key {
        Key::Enter => use_tile_safe(a.game, a.cursor_row, a.cursor_col, a.crops),
        Key::Char(c) => if c == ' ' {
            use_tile_safe(a.game, a.cursor_row, a.cursor_col, a.crops)
        } else if c == '[' {
            a.crops.len() > 0
        } else if c == ']' {
            a.crops.len() > 0 && a.game.selected_crop < usize::MAX
        } else if c == 'b' {
            buy_seed_safe(a.game, a.crops)
        } else if c == 'n' {
            buy_row_safe(a.game)
        } else if c == 'm' {
            buy_column_safe(a.game)
        } else if c == 'r' {
            rebirth_safe(a.game, a.crops)
        } else if c == 'x' {
            reset_safe(a)
        } else if '1' <= c <= '5' {
            buy_upgrade_safe(a.game, (c as int) - ('1' as int), a.ups)
        } else {
            true
        },
        _ => true,
    }
}

/// A key press can be handled.
pub open spec fn key_safe(a: AppModel, key: Key, width: u16, height: u16) -> bool {
    let a0 = armed_for_key(a, key);
    key_action_safe(a0, key) && keep_visible_safe(key_action(a0, key).0, width, height)
}

impl App {
    /// Whether the compact layout is in use.
    pub fn compatibility(&self, width: u16, height: u16) -> (res: bool)
        ensures
            res == compatibility_of(self@, width, height),
    {
        self.force_compatibility || width < 80 || height < 24
    }

    /// Scrolls so the cursor is on screen.
    pub fn keep_cursor_visible(&mut self, width: u16, height: u16)
        requires
            keep_visible_safe(old(self)@, width, height),
        ensures
            final(self)@ == keep_visible_step(old(self)@, width, height),
    {
        let compatibility = self.compatibility(width, height);
        let (visible_rows, visible_cols) = viewport_capacity(width, height, compatibility);
        if self.cursor_row < self.offset_row {
            self.offset_row = self.cursor_row;
        } else if self.cursor_row >= self.offset_row + visible_rows {
            self.offset_row = self.cursor_row + 1 - visible_rows;
        }
        if self.cursor_col < self.offset_col {
            self.offset_col = self.cursor_col;
        } else if self.cursor_col >= self.offset_col + visible_cols {
            self.offset_col = self.cursor_col + 1 - visible_cols;
        }
        self.clamp_offsets(visible_rows, visible_cols);
    }

    /// Keeps the view from scrolling past the field's end.
    pub fn clamp_offsets(&mut self, visible_rows: u32, visible_cols: u32)
        ensures
            final(self)@ == (AppModel {
                offset_row: min_of(old(self).offset_row as int, sat_sub(old(self).game.rows as int, visible_rows as int)) as u32,
                offset_col: min_of(old(self).offset_col as int, sat_sub(old(self).game.cols as int, visible_cols as int)) as u32,
                ..old(self)@
            }),
    {
        let last_row = self.game.rows.saturating_sub(visible_rows);
        if self.offset_row > last_row {
            self.offset_row = last_row;
        }
        let last_col = self.game.cols.saturating_sub(visible_cols);
        if self.offset_col > last_col {
            self.offset_col = last_col;
        }
    }

    /// Moves the cursor within the field.
    pub fn move_cursor(&mut self, row_delta: i32, col_delta: i32)
        ensures
            final(self)@ == move_cursor_step(old(self)@, row_delta, col_delta),
    {
        self.cursor_row = move_axis(self.cursor_row, row_delta, self.game.rows);
        self.cursor_col = move_axis(self.cursor_col, col_delta, self.game.cols);
        self.redraw = true;
    }

    /// Shows an action's message; gives whether the action changed the farm.
    pub fn apply_result(&mut self, result: ActionResult) -> (res: bool)
        ensures
            final(self)@ == (AppModel { status: result@.message, redraw: true, ..old(self)@ }),
            res == result@.changed,
    {
        let changed = result.changed();
        self.status = result.message();
        self.redraw = true;
        changed
    }

    fn show_selection(&mut self)
        requires
            old(self).catalog.crops@.len() > 0,
        ensures
            final(self)@ == (AppModel {
                status: "Selected "@ + selected_crop_of(old(self).game@, old(self).catalog.crops@).name@,
                redraw: true,
                ..old(self)@
            }),
    {
        let crop = self.game.selected_definition(&self.catalog);
        self.status = joined("Selected ", crop.name.as_str());
        self.redraw = true;
    }

    fn rebirth_and_reset(&mut self) -> (res: bool)
        requires
            rebirth_safe(old(self).game@, old(self).catalog.crops@),
        ensures
            (final(self)@, res) == rebirth_app_step(old(self)@),
    {
        let result = self.game.rebirth(&self.catalog);
        let changed = self.apply_result(result);
        if changed {
            self.cursor_row = 0;
            self.cursor_col = 0;
            self.offset_row = 0;
            self.offset_col = 0;
        }
        changed
    }

    fn reset_command(&mut self) -> (res: bool)
        requires
            reset_safe(old(self)@),
        ensures
            (final(self)@, res) == reset_step(old(self)@),
    {
        if self.reset_armed {
            self.game = GameState::new(&self.catalog, self.game.last_seen_utc);
            self.reset_armed = false;
            self.cursor_row = 0;
            self.cursor_col = 0;
            self.offset_row = 0;
            self.offset_col = 0;
            self.status = owned("Started a new farm");
            self.redraw = true;
            true
        } else {
            self.reset_armed = true;
            self.status = owned("Press x again to delete all progress");
            self.redraw = true;
            false
        }
    }

    /// Disarms a pending reset.
    fn disarm(&mut self)
        ensures
            final(self)@ == disarmed(old(self)@),
    {
        if self.reset_armed {
            self.redraw = true;
        }
        self.reset_armed = false;
    }

    fn key_action(&mut self, key: Key) -> (res: bool)
        requires
            key_action_safe(old(self)@, key),
        ensures
            (final(self)@, res) == key_action(old(self)@, key),
    {
        match key {
            Key::Esc => {
                self.quit = true;
                self.redraw = true;
                false
            },
            Key::Up => {
                self.move_cursor(-1, 0);
                false
            },
            Key::Down => {
                self.move_cursor(1, 0);
                false
            },
            Key::Left => {
                self.move_cursor(0, -1);
                false
            },
            Key::Right => {
                self.move_cursor(0, 1);
                false
            },
            Key::Enter => {
                let result = self.game.use_tile(self.cursor_row, self.cursor_col, &self.catalog);
                self.apply_result(result)
            },
            Key::Other => false,
            Key::Char(c) => {
                if c == 'q' {
                    self.quit = true;
                    self.redraw = true;
                    false
                } else if c == 'w' || c == 'k' {
                    self.move_cursor(-1, 0);
                    false
                } else if c == 's' || c == 'j' {
                    self.move_cursor(1, 0);
                    false
                } else if c == 'a' || c == 'h' {
                    self.move_cursor(0, -1);
                    false
                } else if c == 'd' || c == 'l' {
                    self.move_cursor(0, 1);
                    false
                } else if c == ' ' {
                    let result = self.game.use_tile(self.cursor_row, self.cursor_col, &self.catalog);
                    self.apply_result(result)
                } else if c == '[' {
                    self.game.select_previous_crop(&self.catalog);
                    self.show_selection();
                    true
                } else if c == ']' {
                    self.game.select_next_crop(&self.catalog);
                    self.show_selection();
                    true
                } else if c == 'b' {
                    let result = self.game.buy_selected_seed(&self.catalog);
                    self.apply_result(result)
                } else if c == 'v' {
                    let result = self.game.sell_all(&self.catalog);
                    self.apply_result(result)
                } else if c == 'n' {
                    let result = self.game.buy_row();
                    self.apply_result(result)
                } else if c == 'm' {
                    let result = self.game.buy_column();
                    self.apply_result(result)
                } else if c == 'r' {
                    self.rebirth_and_reset()
                } else if c == 'x' {
                    self.reset_command()
                } else if '1' <= c && c <= '5' {
                    let index = (c as u32 - '1' as u32) as usize;
                    let result = self.game.buy_upgrade(index, &self.upgrade_catalog);
                    self.apply_result(result)
                } else {
                    false
                }
            },
        }
    }
}

/// Handles a key press; gives whether the farm changed (and wants saving).
pub fn handle_key(app: &mut App, key: Key, width: u16, height: u16) -> (res: bool)
    requires
        key_safe(old(app)@, key, width, height),
    ensures
        (final(app)@, res) == key_step(old(app)@, key, width, height),
{
    if key != Key::Char('x') {
        app.disarm();
    }
    let changed = app.key_action(key);
    app.keep_cursor_visible(width, height);
    changed
}

// ---------------------------------------------------------------------------
// Mouse

/// The screen geometry of the field: its width, the row above the tiles, the
/// row below them, and a tile's width and height in cells.
pub open spec fn field_geometry(width: u16, height: u16, compatibility: bool) -> (int, int, int, int, int) {
    if compatibility {
        (width as int, 2, sat_sub(height as int, 4), 2, 1)
    } else {
        (shop_left_of(width), 3, sat_sub(height as int, 3), 4, 2)
    }
}

/// The screen cell lies where tiles are drawn: inside the full layout's frame,
/// or, in the compact layout (no frame), below the field's title line.
pub open spec fn inside_field(mouse: MouseInput, width: u16, height: u16, compatibility: bool) -> bool {
    let (farm_width, body_y, body_bottom, cell_width, tile_height) = field_geometry(width, height, compatibility);
    if compatibility {
        mouse.column < farm_width && body_y < mouse.row < body_bottom
    } else {
        !(mouse.column == 0 || mouse.column >= sat_sub(farm_width, 1) || mouse.row <= body_y || mouse.row >= sat_sub(
            body_bottom,
            1,
        ))
    }
}

/// The field row and column under a screen cell where tiles are drawn,
/// counting the scroll. Tiles start one cell in from the full layout's
/// frame, and at the left edge in the compact layout.
pub open spec fn field_position(a: AppModel, mouse: MouseInput, width: u16, height: u16, compatibility: bool) -> (int, int) {
    let (farm_width, body_y, body_bottom, cell_width, tile_height) = field_geometry(width, height, compatibility);
    let left: int = if compatibility { 0 } else { 1 };
    (a.offset_row + (mouse.row - body_y - 1) / tile_height, a.offset_col + (mouse.column - left) / cell_width)
}

/// The field tile under a screen cell, if any.
pub open spec fn mouse_tile_of(a: AppModel, mouse: MouseInput, width: u16, height: u16, compatibility: bool) -> Option<(u32, u32)> {
    if !inside_field(mouse, width, height, compatibility) {
        None
    } else {
        let (row, col) = field_position(a, mouse, width, height, compatibility);
        if row < a.game.rows && col < a.game.cols {
            Some((row as u32, col as u32))
        } else {
            None
        }
    }
}

/// Finding the tile under the mouse stays within the screen arithmetic.
pub open spec fn mouse_tile_safe(a: AppModel, mouse: MouseInput, width: u16, height: u16, compatibility: bool) -> bool {
    inside_field(mouse, width, height, compatibility) ==> {
        let (row, col) = field_position(a, mouse, width, height, compatibility);
        row <= u32::MAX && col <= u32::MAX
    }
}

/// What a click on a shop row does.
pub open spec fn shop_step(a: AppModel, target: ShopTarget, buy_selected: bool) -> (AppModel, bool) {
    match target {
        ShopTarget::Crop(index) => {
            let already = index == a.game.selected_crop;
            let g = GameModel { selected_crop: index, ..a.game };
            let a1 = AppModel { game: g, ..a };
            if already || buy_selected {
                apply_step(a1, buy_seed_step(g, a.crops))
            } else {
                select_step(a1, g)
            }
        },
        ShopTarget::Upgrade(index) => apply_step(a, buy_upgrade_step(a.game, index as int, a.ups)),
        ShopTarget::Row => apply_step(a, buy_row_step(a.game)),
        ShopTarget::Column => apply_step(a, buy_column_step(a.game)),
        ShopTarget::Rebirth => rebirth_app_step(a),
        ShopTarget::Reset => reset_step(a),
    }
}

/// The action behind a click on a shop row can run.
pub open spec fn shop_safe(a: AppModel, target: ShopTarget, buy_selected: bool) -> bool {
    match target {
        ShopTarget::Crop(index) => {
            let g = GameModel { selected_crop: index, ..a.game };
            &&& a.crops.len() > 0
            &&& (index == a.game.selected_crop || buy_selected) ==> buy_seed_safe(g, a.crops)
        },
        ShopTarget::Upgrade(index) => buy_upgrade_safe(a.game, index as int, a.ups),
        ShopTarget::Row => buy_row_safe(a.game),
        ShopTarget::Column => buy_column_safe(a.game),
        ShopTarget::Rebirth => rebirth_safe(a.game, a.crops),
        ShopTarget::Reset => reset_safe(a),
    }
}

/// The shop row under the mouse, with the crop list as scrolled.
pub open spec fn hovered_of(a: AppModel, mouse: MouseInput, width: u16, height: u16) -> Option<ShopTarget> {
    shop_target_at(
        mouse.column,
        mouse.row,
        width,
        height,
        a.crops.len() as usize,
        a.ups.len() as usize,
        compatibility_of(a, width, height),
        a.shop_offset,
    )
}

/// The session as a mouse event finds it: clicks and the wheel disarm a
/// pending reset, except a click on the reset row; moving the pointer does not.
pub open spec fn armed_for_mouse(a: AppModel, mouse: MouseInput, width: u16, height: u16) -> AppModel {
    match mouse.kind {
        MouseKind::LeftDown | MouseKind::RightDown => if hovered_of(a, mouse, width, height) == Some(ShopTarget::Reset) {
            a
        } else {
            disarmed(a)
        },
        MouseKind::ScrollUp | MouseKind::ScrollDown => disarmed(a),
        _ => a,
    }
}

/// The last position the shop's crop list can be scrolled to.
pub open spec fn last_shop_offset(a: AppModel, height: u16) -> int {
    sat_sub(a.crops.len() as int, shop_window_of(height, a.crops.len() as usize, a.ups.len() as usize))
}

/// What a mouse event does: clicks on the shop buy, clicks on the field move
/// the cursor (and work the tile on a second click or a right click), the
/// wheel scrolls the shop's crop list over the shop and the field elsewhere,
/// and moving highlights the shop row under the pointer.
pub open spec fn mouse_step(a: AppModel, mouse: MouseInput, width: u16, height: u16) -> (AppModel, bool) {
    mouse_action(armed_for_mouse(a, mouse, width, height), mouse, width, height)
}

/// What a mouse event does once a pending reset was settled.
pub open spec fn mouse_action(a: AppModel, mouse: MouseInput, width: u16, height: u16) -> (AppModel, bool) {
    let compatibility = compatibility_of(a, width, height);
    let hovered = hovered_of(a, mouse, width, height);
    let over_shop = over_shop_of(mouse.column, width, height, compatibility);
    match mouse.kind {
        MouseKind::LeftDown | MouseKind::RightDown => match hovered {
            Some(target) => shop_step(
                AppModel { hovered_shop: Some(target), redraw: true, ..a },
                target,
                mouse.kind == MouseKind::RightDown,
            ),
            None => match mouse_tile_of(a, mouse, width, height, compatibility) {
                None => (a, false),
                Some((row, col)) => {
                    let already = row == a.cursor_row && col == a.cursor_col;
                    let a1 = AppModel { cursor_row: row, cursor_col: col, redraw: true, ..a };
                    if mouse.kind == MouseKind::RightDown || already {
                        apply_step(a1, use_tile_step(a1.game, row, col, a.crops))
                    } else {
                        (a1, false)
                    }
                },
            },
        },
        MouseKind::ScrollUp => if over_shop {
            (AppModel { shop_offset: sat_sub(a.shop_offset as int, 3) as usize, redraw: true, ..a }, false)
        } else {
            (AppModel { offset_row: sat_sub(a.offset_row as int, 3) as u32, redraw: true, ..a }, false)
        },
        MouseKind::ScrollDown => if over_shop {
            (
                AppModel {
                    shop_offset: min_of(a.shop_offset + 3, last_shop_offset(a, height)) as usize,
                    redraw: true,
                    ..a
                },
                false,
            )
        } else {
            (
                AppModel {
                    offset_row: min_of(a.offset_row + 3, sat_sub(a.game.rows as int, 1)) as u32,
                    redraw: true,
                    ..a
                },
                false,
            )
        },
        MouseKind::Moved => if hovered != a.hovered_shop {
            (AppModel { hovered_shop: hovered, redraw: true, ..a }, false)
        } else {
            (a, false)
        },
        MouseKind::Other => (a, false),
    }
}

/// A mouse event can be handled.
pub open spec fn mouse_safe(a: AppModel, mouse: MouseInput, width: u16, height: u16) -> bool {
    mouse_action_safe(armed_for_mouse(a, mouse, width, height), mouse, width, height)
}

/// A mouse event can be handled once a pending reset was settled.
pub open spec fn mouse_action_safe(a: AppModel, mouse: MouseInput, width: u16, height: u16) -> bool {
    let compatibility = compatibility_of(a, width, height);
    let hovered = hovered_of(a, mouse, width, height);
    match mouse.kind {
        MouseKind::LeftDown | MouseKind::RightDown => match hovered {
            Some(target) => shop_safe(a, target, mouse.kind == MouseKind::RightDown),
            None => mouse_tile_safe(a, mouse, width, height, compatibility) && match mouse_tile_of(a, mouse, width, height, compatibility) {
                Some((row, col)) => use_tile_safe(a.game, row, col, a.crops),
                None => true,
            },
        },
        MouseKind::ScrollDown => over_shop_of(mouse.column, width, height, compatibility) || a.offset_row + 3
            <= u32::MAX,
        _ => true,
    }
}

/// The field tile under the mouse, if any.
pub fn mouse_tile(app: &App, mouse: MouseInput, width: u16, height: u16, compatibility: bool) -> (res: Option<(u32, u32)>)
    requires
        mouse_tile_safe(app@, mouse, width, height, compatibility),
    ensures
        res == mouse_tile_of(app@, mouse, width, height, compatibility),
{
    let farm_width: u16;
    let body_y: u16;
    let body_bottom: u16;
    let cell_width: u16;
    let tile_height: u16;
    if compatibility {
        farm_width = width;
        body_y = 2;
        body_bottom = height.saturating_sub(4);
        cell_width = 2;
        tile_height = 1;
    } else {
        let product: u32 = width as u32 * 68;
        let capped: u32 = if product > 65535 { 65535 } else { product };
        farm_width = (capped / 100) as u16;
        body_y = 3;
        body_bottom = height.saturating_sub(3);
        cell_width = 4;
        tile_height = 2;
    }
    let inside = if compatibility {
        mouse.column < farm_width && body_y < mouse.row && mouse.row < body_bottom
    } else {
        !(mouse.column == 0 || mouse.column >= farm_width.saturating_sub(1) || mouse.row <= body_y || mouse.row
            >= body_bottom.saturating_sub(1))
    };
    if !inside {
        return None;
    }
    let left: u16 = if compatibility { 0 } else { 1 };
    let row = app.offset_row + ((mouse.row - body_y - 1) / tile_height) as u32;
    let col = app.offset_col + ((mouse.column - left) / cell_width) as u32;
    if row < app.game.rows && col < app.game.cols {
        Some((row, col))
    } else {
        None
    }
}

/// Handles a click on a shop row; gives whether the farm changed.
pub fn handle_shop_mouse(app: &mut App, target: ShopTarget, buy_selected: bool) -> (res: bool)
    requires
        shop_safe(old(app)@, target, buy_selected),
    ensures
        (final(app)@, res) == shop_step(old(app)@, target, buy_selected),
{
    match target {
        ShopTarget::Crop(index) => {
            let already = index == app.game.selected_crop;
            app.game.selected_crop = index;
            if already || buy_selected {
                let result = app.game.buy_selected_seed(&app.catalog);
                app.apply_result(result)
            } else {
                app.show_selection();
                true
            }
        },
        ShopTarget::Upgrade(index) => {
            let result = app.game.buy_upgrade(index, &app.upgrade_catalog);
            app.apply_result(result)
        },
        ShopTarget::Row => {
            let result = app.game.buy_row();
            app.apply_result(result)
        },
        ShopTarget::Column => {
            let result = app.game.buy_column();
            app.apply_result(result)
        },
        ShopTarget::Rebirth => app.rebirth_and_reset(),
        ShopTarget::Reset => app.reset_command(),
    }
}

impl App {
    /// The shop row under the mouse, with the crop list as scrolled.
    pub fn hovered(&self, mouse: MouseInput, width: u16, height: u16) -> (res: Option<ShopTarget>)
        ensures
            res == hovered_of(self@, mouse, width, height),
    {
        let compatibility = self.compatibility(width, height);
        shop_target_scrolled(
            mouse.column,
            mouse.row,
            width,
            height,
            self.catalog.crops.len(),
            self.upgrade_catalog.upgrades.len(),
            compatibility,
            self.shop_offset,
        )
    }
}

/// Handles a mouse event; gives whether the farm changed (and wants saving).
pub fn handle_mouse(app: &mut App, mouse: MouseInput, width: u16, height: u16) -> (res: bool)
    requires
        mouse_safe(old(app)@, mouse, width, height),
    ensures
        (final(app)@, res) == mouse_step(old(app)@, mouse, width, height),
{
    let hovered = app.hovered(mouse, width, height);
    match mouse.kind {
        MouseKind::LeftDown | MouseKind::RightDown => {
            if hovered != Some(ShopTarget::Reset) {
                app.disarm();
            }
        },
        MouseKind::ScrollUp | MouseKind::ScrollDown => {
            app.disarm();
        },
        _ => {},
    }
    let compatibility = app.compatibility(width, height);
    let over = over_shop(mouse.column, width, height, compatibility);
    match mouse.kind {
        MouseKind::LeftDown | MouseKind::RightDown => {
            match hovered {
                Some(target) => {
                    app.hovered_shop = Some(target);
                    app.redraw = true;
                    let buy_selected = mouse.kind == MouseKind::RightDown;
                    return handle_shop_mouse(app, target, buy_selected);
                },
                None => {},
            }
            let (row, col) = match mouse_tile(app, mouse, width, height, compatibility) {
                Some(tile) => tile,
                None => {
                    return false;
                },
            };
            let already = row == app.cursor_row && col == app.cursor_col;
            app.cursor_row = row;
            app.cursor_col = col;
            app.redraw = true;
            if mouse.kind == MouseKind::RightDown || already {
                let result = app.game.use_tile(row, col, &app.catalog);
                app.apply_result(result)
            } else {
                false
            }
        },
        MouseKind::ScrollUp => {
            if over {
                app.shop_offset = app.shop_offset.saturating_sub(3);
            } else {
                app.offset_row = app.offset_row.saturating_sub(3);
            }
            app.redraw = true;
            false
        },
        MouseKind::ScrollDown => {
            if over {
                let crops = app.catalog.crops.len();
                let window = shop_window(height, crops, app.upgrade_catalog.upgrades.len());
                let last = crops.saturating_sub(window);
                let moved = app.shop_offset.saturating_add(3);
                app.shop_offset = if moved < last { moved } else { last };
            } else {
                let moved = app.offset_row + 3;
                let last = app.game.rows.saturating_sub(1);
                app.offset_row = if moved < last { moved } else { last };
            }
            app.redraw = true;
            false
        },
        MouseKind::Moved => {
            if hovered != app.hovered_shop {
                app.hovered_shop = hovered;
                app.redraw = true;
            }
            false
        },
        MouseKind::Other => false,
    }
}

// ---------------------------------------------------------------------------
// The clock

/// One tick of the clock: crops grow at the active rate times the machinery's
/// boost, then the machines take their turn; the last machine message goes to
/// the status line.
pub open spec fn tick_step(a: AppModel, elapsed_ms: u64) -> (AppModel, bool) {
    let multiplier = combined_multiplier_of(ACTIVE_GROWTH_MULTIPLIER, growth_multiplier_of(a.game, a.ups));
    let grown = apply_elapsed_step(a.game, elapsed_ms, multiplier);
    let (g, messages) = run_machines(grown, a.ups, a.crops, elapsed_ms, a.ups.len());
    (
        AppModel {
            game: g,
            status: if messages.len() > 0 { messages.last() } else { a.status },
            redraw: true,
            ..a
        },
        messages.len() > 0,
    )
}

/// The machines can take their turn after the crops grew.
pub open spec fn tick_safe(a: AppModel, elapsed_ms: u64) -> bool {
    let multiplier = combined_multiplier_of(ACTIVE_GROWTH_MULTIPLIER, growth_multiplier_of(a.game, a.ups));
    let grown = apply_elapsed_step(a.game, elapsed_ms, multiplier);
    run_machines_safe(grown, a.ups, a.crops, elapsed_ms, a.ups.len())
}

impl App {
    /// Lets `elapsed_ms` milliseconds pass while the game is open. Gives whether
    /// a machine ran (and the farm wants saving).
    pub fn tick(&mut self, elapsed_ms: u64) -> (res: bool)
        requires
            tick_safe(old(self)@, elapsed_ms),
        ensures
            (final(self)@, res) == tick_step(old(self)@, elapsed_ms),
    {
        let boost = self.game.growth_upgrade_multiplier(&self.upgrade_catalog);
        let multiplier = combine_multipliers(ACTIVE_GROWTH_MULTIPLIER, boost);
        self.game.apply_elapsed(elapsed_ms, multiplier);
        let mut messages = self.game.run_automation(elapsed_ms, &self.catalog, &self.upgrade_catalog);
        let ran = messages.len() > 0;
        let ghost texts_before = texts(messages@);
        match messages.pop() {
            Some(last) => {
                assert(last@ == texts_before.last());
                self.status = last;
            },
            None => {},
        }
        self.redraw = true;
        ran
    }
}

// ---------------------------------------------------------------------------
// Checks that an event can be handled

impl App {
    fn keep_visible_is_safe_at(
        &self,
        cursor_row: u32,
        cursor_col: u32,
        offset_row: u32,
        offset_col: u32,
        width: u16,
        height: u16,
    ) -> (res: bool)
        ensures
            res == keep_visible_safe(
                AppModel { cursor_row, cursor_col, offset_row, offset_col, ..self@ },
                width,
                height,
            ),
    {
        let compatibility = self.compatibility(width, height);
        let (visible_rows, visible_cols) = viewport_capacity(width, height, compatibility);
        let row_end: u64 = offset_row as u64 + visible_rows as u64;
        let col_end: u64 = offset_col as u64 + visible_cols as u64;
        (cursor_row < offset_row || row_end <= u32::MAX as u64) && ((cursor_row as u64) < row_end
            || cursor_row < u32::MAX) && (cursor_col < offset_col || col_end <= u32::MAX as u64) && ((
        cursor_col as u64) < col_end || cursor_col < u32::MAX)
    }

    /// Whether the view can follow the cursor on a screen of this size.
    pub fn keep_visible_is_safe(&self, width: u16, height: u16) -> (res: bool)
        ensures
            res == keep_visible_safe(self@, width, height),
    {
        let res = self.keep_visible_is_safe_at(
            self.cursor_row,
            self.cursor_col,
            self.offset_row,
            self.offset_col,
            width,
            height,
        );
        assert((AppModel {
            cursor_row: self.cursor_row,
            cursor_col: self.cursor_col,
            offset_row: self.offset_row,
            offset_col: self.offset_col,
            ..self@
        }) == self@);
        res
    }

    /// Whether a key press can be handled.
    pub fn key_is_safe(&self, key: Key, width: u16, height: u16) -> (res: bool)
        ensures
            res == key_safe(self@, key, width, height),
    {
        if !self.key_action_is_safe(key) {
            return false;
        }
        let (mut row_delta, mut col_delta): (i32, i32) = (0, 0);
        match key {
            Key::Up => { row_delta = -1; },
            Key::Down => { row_delta = 1; },
            Key::Left => { col_delta = -1; },
            Key::Right => { col_delta = 1; },
            Key::Char(c) => {
                if c == 'w' || c == 'k' {
                    row_delta = -1;
                } else if c == 's' || c == 'j' {
                    row_delta = 1;
                } else if c == 'a' || c == 'h' {
                    col_delta = -1;
                } else if c == 'd' || c == 'l' {
                    col_delta = 1;
                }
            },
            _ => {},
        }
        let reborn = match key {
            Key::Char(c) => (c == 'r' && self.game.run_earnings >= self.game.rebirth_requirement()) || (c == 'x'
                && self.reset_armed),
            _ => false,
        };
        if reborn {
            self.keep_visible_is_safe_at(0, 0, 0, 0, width, height)
        } else {
            let cursor_row = move_axis(self.cursor_row, row_delta, self.game.rows);
            let cursor_col = move_axis(self.cursor_col, col_delta, self.game.cols);
            let moved = row_delta != 0 || col_delta != 0;
            if moved {
                self.keep_visible_is_safe_at(cursor_row, cursor_col, self.offset_row, self.offset_col, width, height)
            } else {
                self.keep_visible_is_safe_at(self.cursor_row, self.cursor_col, self.offset_row, self.offset_col, width, height)
            }
        }
    }

    /// Whether a mouse event can be handled.
    pub fn mouse_is_safe(&self, mouse: MouseInput, width: u16, height: u16) -> (res: bool)
        ensures
            res == mouse_safe(self@, mouse, width, height),
    {
        let compatibility = self.compatibility(width, height);
        let hovered = self.hovered(mouse, width, height);
        let disarms = match mouse.kind {
            MouseKind::LeftDown | MouseKind::RightDown => hovered != Some(ShopTarget::Reset),
            MouseKind::ScrollUp | MouseKind::ScrollDown => true,
            _ => false,
        };
        match mouse.kind {
            MouseKind::LeftDown | MouseKind::RightDown => {
                match hovered {
                    Some(target) => {
                        if disarms {
                            self.shop_is_safe_disarmed(target, mouse.kind == MouseKind::RightDown)
                        } else {
                            self.shop_is_safe(target, mouse.kind == MouseKind::RightDown)
                        }
                    },
                    None => {
                        if !self.mouse_tile_is_safe(mouse, width, height, compatibility) {
                            return false;
                        }
                        match mouse_tile(self, mouse, width, height, compatibility) {
                            Some((row, col)) => self.game.use_tile_is_safe(row, col, &self.catalog),
                            None => true,
                        }
                    },
                }
            },
            MouseKind::ScrollDown => over_shop(mouse.column, width, height, compatibility) || self.offset_row
                < u32::MAX - 2,
            _ => true,
        }
    }

    /// Whether a click on a shop row can be handled once a pending reset is disarmed.
    fn shop_is_safe_disarmed(&self, target: ShopTarget, buy_selected: bool) -> (res: bool)
        ensures
            res == shop_safe(disarmed(self@), target, buy_selected),
    {
        match target {
            ShopTarget::Reset => true,
            _ => self.shop_is_safe(target, buy_selected),
        }
    }

    fn shop_is_safe(&self, target: ShopTarget, buy_selected: bool) -> (res: bool)
        ensures
            res == shop_safe(self@, target, buy_selected),
    {
        match target {
            ShopTarget::Crop(index) => {
                if self.catalog.crops.len() == 0 {
                    return false;
                }
                if !(index == self.game.selected_crop || buy_selected) {
                    return true;
                }
                let last = self.catalog.crops.len() - 1;
                let position = if index < last { index } else { last };
                let crop = &self.catalog.crops[position];
                if self.game.run_earnings >= crop.unlock_earnings && self.game.coins >= crop.seed_price {
                    let count = match self.game.seeds.get(crop.id.as_str()) {
                        Some(n) => n,
                        None => 0,
                    };
                    count < u32::MAX
                } else {
                    true
                }
            },
            ShopTarget::Upgrade(index) => self.game.buy_upgrade_is_safe(index, &self.upgrade_catalog),
            ShopTarget::Row => self.game.buy_row_is_safe(),
            ShopTarget::Column => self.game.buy_column_is_safe(),
            ShopTarget::Rebirth => self.game.rebirth_is_safe(&self.catalog),
            ShopTarget::Reset => !self.reset_armed || self.catalog.crops.len() > 0,
        }
    }

    fn mouse_tile_is_safe(&self, mouse: MouseInput, width: u16, height: u16, compatibility: bool) -> (res: bool)
        ensures
            res == mouse_tile_safe(self@, mouse, width, height, compatibility),
    {
        let farm_width: u16;
        let body_y: u16;
        let body_bottom: u16;
        let cell_width: u16;
        let tile_height: u16;
        if compatibility {
            farm_width = width;
            body_y = 2;
            body_bottom = height.saturating_sub(4);
            cell_width = 2;
            tile_height = 1;
        } else {
            let product: u32 = width as u32 * 68;
            let capped: u32 = if product > 65535 { 65535 } else { product };
            farm_width = (capped / 100) as u16;
            body_y = 3;
            body_bottom = height.saturating_sub(3);
            cell_width = 4;
            tile_height = 2;
        }
        let inside = if compatibility {
            mouse.column < farm_width && body_y < mouse.row && mouse.row < body_bottom
        } else {
            !(mouse.column == 0 || mouse.column >= farm_width.saturating_sub(1) || mouse.row <= body_y || mouse.row
                >= body_bottom.saturating_sub(1))
        };
        if !inside {
            return true;
        }
        let left: u16 = if compatibility { 0 } else { 1 };
        let row: u64 = self.offset_row as u64 + ((mouse.row - body_y - 1) / tile_height) as u64;
        let col: u64 = self.offset_col as u64 + ((mouse.column - left) / cell_width) as u64;
        row <= u32::MAX as u64 && col <= u32::MAX as u64
    }

    fn key_action_is_safe(&self, key: Key) -> (res: bool)
        ensures
            res == key_action_safe(self@, key),
    {
        match key {
            Key::Enter => self.game.use_tile_is_safe(self.cursor_row, self.cursor_col, &self.catalog),
            Key::Char(c) => {
                if c == ' ' {
                    self.game.use_tile_is_safe(self.cursor_row, self.cursor_col, &self.catalog)
                } else if c == '[' {
                    self.catalog.crops.len() > 0
                } else if c == ']' {
                    self.catalog.crops.len() > 0 && self.game.selected_crop < usize::MAX
                } else if c == 'b' {
                    self.game.buy_seed_is_safe(&self.catalog)
                } else if c == 'n' {
                    self.game.buy_row_is_safe()
                } else if c == 'm' {
                    self.game.buy_column_is_safe()
                } else if c == 'r' {
                    self.game.rebirth_is_safe(&self.catalog)
                } else if c == 'x' {
                    !self.reset_armed || self.catalog.crops.len() > 0
                } else if '1' <= c && c <= '5' {
                    let index = (c as u32 - '1' as u32) as usize;
                    self.game.buy_upgrade_is_safe(index, &self.upgrade_catalog)
                } else {
                    true
                }
            },
            _ => true,
        }
    }
}

impl App {
    /// Whether a clock tick is sure to run: a crop is on offer, and every
    /// produce count has room for a full turn of every harvesting machine
    /// (the only runs that add to a count).
    pub fn tick_is_safe(&self, elapsed_ms: u64) -> (res: bool)
        ensures
            res == (self.catalog.crops@.len() > 0 && produce_headroom(
                self.game@,
                MAX_CYCLES * harvesters(self.upgrade_catalog.upgrades@, self.upgrade_catalog.upgrades@.len()),
            )),
            res ==> tick_safe(self@, elapsed_ms),
    {
        let res = self.game.machines_are_safe(&self.catalog, &self.upgrade_catalog);
        proof {
            let a = self@;
            let multiplier = combined_multiplier_of(ACTIVE_GROWTH_MULTIPLIER, growth_multiplier_of(a.game, a.ups));
            let grown = apply_elapsed_step(a.game, elapsed_ms, multiplier);
            assert(grown.produce == a.game.produce);
            if res {
                let b = MAX_CYCLES * harvesters(a.ups, a.ups.len());
                assert forall|k: Seq<char>| #[trigger] crate::game::count_of(grown.produce, k) + b < u32::MAX by {
                    assert(crate::game::count_of(a.game.produce, k) + b < u32::MAX);
                }
                lemma_headroom_makes_machines_safe(grown, a.ups, a.crops, elapsed_ms);
            }
        }
        res
    }
}

} // verus!
