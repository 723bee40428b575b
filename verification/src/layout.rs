//! Screen geometry of the interactive front end: where the shop's rows are
//! and how much of the field fits on screen.
use vstd::prelude::*;

verus! {

/// A row of the shop panel.
#[derive(Debug, Clone, Copy, PartialEq, Eq, Structural)]
pub enum ShopTarget {
    Crop(usize),
    Upgrade(usize),
    Row,
    Column,
    Rebirth,
    Reset,
}

/// `width * 68 / 100`, with the product capped at `u16::MAX`: the left edge of the shop.
pub open spec fn shop_left_of(width: u16) -> int {
    (if width * 68 > u16::MAX { u16::MAX as int } else { width * 68 }) / 100
}

/// How many crop rows the shop shows on a screen `height` rows high: the crop
/// list is a window above the machinery, land, rebirth and reset rows, which
/// all end on the panel's last inner row, `height - 6`, when the list is long.
pub open spec fn shop_window_of(height: u16, crop_count: usize, upgrade_count: usize) -> int {
    let room = height - 15 - upgrade_count;
    if room <= 0 {
        0
    } else if crop_count < room {
        crop_count as int
    } else {
        room
    }
}

/// The pointer is over the shop panel, which a full-size screen shows.
pub open spec fn over_shop_of(column: u16, width: u16, height: u16, compatibility: bool) -> bool {
    !compatibility && width >= 80 && height >= 24 && shop_left_of(width) < column < width - 1
}

/// The shop row under a screen cell, with the crop list scrolled by
/// `shop_offset`. Crop rows start at row 5; below the crop window come one
/// separator row, the machinery rows, and the land, rebirth and reset rows.
/// Only rows the panel draws inside its frame, 5 to `height - 6`, are targets.
pub open spec fn shop_target_at(
    column: u16,
    row: u16,
    width: u16,
    height: u16,
    crop_count: usize,
    upgrade_count: usize,
    compatibility: bool,
    shop_offset: usize,
) -> Option<ShopTarget> {
    let window = shop_window_of(height, crop_count, upgrade_count);
    let upgrade_start = 5 + window + 1;
    let land_row = upgrade_start + upgrade_count;
    if !over_shop_of(column, width, height, compatibility) || row > height - 6 {
        None
    } else if 5 <= row < 5 + window {
        if shop_offset + (row - 5) < crop_count {
            Some(ShopTarget::Crop((shop_offset + (row - 5)) as usize))
        } else {
            None
        }
    } else if upgrade_start <= row < upgrade_start + upgrade_count {
        Some(ShopTarget::Upgrade((row - upgrade_start) as usize))
    } else if row == land_row {
        Some(ShopTarget::Row)
    } else if row == land_row + 1 {
        Some(ShopTarget::Column)
    } else if row == land_row + 2 {
        Some(ShopTarget::Rebirth)
    } else if row == land_row + 3 {
        Some(ShopTarget::Reset)
    } else {
        None
    }
}

/// The shop row under a screen cell, with the crop list at its start.
pub open spec fn shop_target_of(
    column: u16,
    row: u16,
    width: u16,
    height: u16,
    crop_count: usize,
    upgrade_count: usize,
    compatibility: bool,
) -> Option<ShopTarget> {
    shop_target_at(column, row, width, height, crop_count, upgrade_count, compatibility, 0)
}

fn shop_left(width: u16) -> (res: u16)
    ensures
        res == shop_left_of(width),
{
    let product: u32 = width as u32 * 68;
    let capped: u32 = if product > 65535 { 65535 } else { product };
    (capped / 100) as u16
}

/// How many crop rows the shop shows on a screen `height` rows high.
pub fn shop_window(height: u16, crop_count: usize, upgrade_count: usize) -> (res: usize)
    ensures
        res == shop_window_of(height, crop_count, upgrade_count),
{
    let used: u128 = 15 + upgrade_count as u128;
    if (height as u128) <= used {
        return 0;
    }
    let room = height as u128 - used;
    if (crop_count as u128) < room {
        crop_count
    } else {
        room as usize
    }
}

/// Whether the pointer is over the shop panel.
pub fn over_shop(column: u16, width: u16, height: u16, compatibility: bool) -> (res: bool)
    ensures
        res == over_shop_of(column, width, height, compatibility),
{
    !compatibility && width >= 80 && height >= 24 && shop_left(width) < column && column < width - 1
}

/// The shop row under a screen cell, with the crop list scrolled by `shop_offset`.
pub fn shop_target_scrolled(
    column: u16,
    row: u16,
    width: u16,
    height: u16,
    crop_count: usize,
    upgrade_count: usize,
    compatibility: bool,
    shop_offset: usize,
) -> (res: Option<ShopTarget>)
    ensures
        res == shop_target_at(column, row, width, height, crop_count, upgrade_count, compatibility, shop_offset),
{
    if !over_shop(column, width, height, compatibility) || row > height - 6 {
        return None;
    }
    let window = shop_window(height, crop_count, upgrade_count);
    let r = row as u128;
    if 5 <= r && r < 5 + window as u128 {
        let step = (row - 5) as usize;
        if shop_offset < crop_count && step < crop_count - shop_offset {
            return Some(ShopTarget::Crop(shop_offset + step));
        }
        return None;
    }
    let upgrade_start: u128 = 5 + window as u128 + 1;
    if upgrade_start <= r && r < upgrade_start + upgrade_count as u128 {
        return Some(ShopTarget::Upgrade((r - upgrade_start) as usize));
    }
    let land_row: u128 = upgrade_start + upgrade_count as u128;
    if r == land_row {
        Some(ShopTarget::Row)
    } else if r == land_row + 1 {
        Some(ShopTarget::Column)
    } else if r == land_row + 2 {
        Some(ShopTarget::Rebirth)
    } else if r == land_row + 3 {
        Some(ShopTarget::Reset)
    } else {
        None
    }
}

/// The shop row under a screen cell, if any, with the crop list at its start.
pub fn shop_target(
    column: u16,
    row: u16,
    width: u16,
    height: u16,
    crop_count: usize,
    upgrade_count: usize,
    compatibility: bool,
) -> (res: Option<ShopTarget>)
    ensures
        res == shop_target_of(column, row, width, height, crop_count, upgrade_count, compatibility),
        res is Some ==> 5 <= row <= height - 6,
{
    shop_target_scrolled(column, row, width, height, crop_count, upgrade_count, compatibility, 0)
}

/// How many field rows and columns fit on screen, at least one each. A full
/// tile is four cells wide and two high, a compact one two wide and one high.
pub open spec fn viewport_capacity_of(width: u16, height: u16, compatibility: bool) -> (u32, u32) {
    let cell_width = if compatibility { 2int } else { 4int };
    let farm_width = if compatibility { width as int } else { shop_left_of(width) };
    let cols = (if farm_width >= 2 { farm_width - 2 } else { 0 }) / cell_width;
    let rows = if compatibility {
        if height >= 8 { height - 8 } else { 0 }
    } else {
        (if height >= 9 { height - 9 } else { 0 }) / 2
    };
    ((if rows < 1 { 1 } else { rows }) as u32, (if cols < 1 { 1 } else { cols }) as u32)
}

/// How many field rows and columns fit on screen.
pub fn viewport_capacity(width: u16, height: u16, compatibility: bool) -> (res: (u32, u32))
    ensures
        res == viewport_capacity_of(width, height, compatibility),
{
    let cell_width: u16 = if compatibility { 2 } else { 4 };
    let farm_width: u16 = if compatibility { width } else { shop_left(width) };
    let cols = farm_width.saturating_sub(2) / cell_width;
    let rows = if compatibility { height.saturating_sub(8) } else { height.saturating_sub(9) / 2 };
    let rows = if rows < 1 { 1 } else { rows };
    let cols = if cols < 1 { 1 } else { cols };
    (rows as u32, cols as u32)
}

} // verus!
