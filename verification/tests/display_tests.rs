use terminalfarms::data::{CropCatalog, UpgradeCatalog};
use terminalfarms::display::{field_window, field_window_fits, push_padded};
use terminalfarms::game::GameState;

fn setup() -> (GameState, CropCatalog, UpgradeCatalog) {
    let catalog = CropCatalog::embedded().unwrap();
    let upgrades = UpgradeCatalog::embedded().unwrap();
    (GameState::new(&catalog, 0), catalog, upgrades)
}

#[test]
fn padding_fills_to_the_width() {
    let mut out = "x".to_string();
    push_padded(&mut out, "ab", 4);
    assert_eq!(out, "xab  ");
    push_padded(&mut out, "longer", 3);
    assert_eq!(out, "xab  longer");
}

#[test]
fn crop_rows_show_stock_or_lock() {
    let (game, catalog, _) = setup();
    assert_eq!(game.crop_shop_line(&catalog, 0), "> Radish   s3  $5    p0");
    assert_eq!(game.crop_shop_line(&catalog, 1), "  Lettuce  lock $100");
}

#[test]
fn machine_rows_show_lock_level_and_price() {
    let (mut game, _, upgrades) = setup();
    assert_eq!(game.upgrade_shop_line(&upgrades, 0), "1 Cultivator   L0 $100");
    assert_eq!(game.upgrade_shop_line(&upgrades, 1), "2 Seed Drill   ≥$100");
    game.coins = 100_000;
    for _ in 0..5 {
        game.buy_upgrade(0, &upgrades);
    }
    assert_eq!(game.upgrade_shop_line(&upgrades, 0), "1 Cultivator   L5 $600");
}

#[test]
fn land_and_rebirth_rows_show_prices() {
    let (game, _, _) = setup();
    assert_eq!(game.land_row_line(), " LAND  n row     $100");
    assert_eq!(game.land_column_line(), "       m column  $100");
    assert_eq!(game.rebirth_line(), " REBIRTH  r · need $2500");
}

#[test]
fn tiles_show_soil_and_growth() {
    let (mut game, catalog, _) = setup();
    assert_eq!(game.tile_text(&catalog, 0, 0, true, 0), ("##".to_string(), false));
    assert_eq!(game.tile_text(&catalog, 0, 0, false, 0), ("▓▓▓".to_string(), false));
    game.use_tile(0, 0, &catalog);
    assert_eq!(game.tile_text(&catalog, 0, 0, true, 0), ("..".to_string(), false));
    assert_eq!(game.tile_text(&catalog, 0, 0, false, 0), (" ░ ".to_string(), false));
    assert_eq!(game.tile_text(&catalog, 0, 0, false, 1), ("░░░".to_string(), false));
    game.use_tile(0, 0, &catalog);
    assert_eq!(game.tile_text(&catalog, 0, 0, true, 0), ("o ".to_string(), false));
    assert_eq!(game.tile_text(&catalog, 0, 0, false, 1), (" . ".to_string(), false));
    game.apply_elapsed(30_000, 10_000);
    assert_eq!(game.tile_text(&catalog, 0, 0, true, 0), ("* ".to_string(), true));
    assert_eq!(game.tile_text(&catalog, 0, 0, false, 1), ("(o)".to_string(), true));
    assert_eq!(game.ready_count(&catalog), 1);
}

#[test]
fn field_titles_count_ripe_crops() {
    let (game, catalog, _) = setup();
    assert_eq!(game.field_title(&catalog, 0, 0, false), " FIELD  3×3  ·  0 ready  ·  view 1,1 ");
    assert_eq!(game.field_title(&catalog, 2, 1, true), "FARM 3x3 | 0 ready | view 3,2");
}

#[test]
fn status_lines_report_the_farm() {
    let (mut game, catalog, upgrades) = setup();
    assert_eq!(game.header_tail(&upgrades), "  +0%  ⚙0  GROW +25%");
    assert_eq!(game.compact_header(), "TERMINAL FARMS  $20  earned $0  rebirth 0");
    assert_eq!(game.crop_note(&catalog), "  ·  Radish s:3 p:0  ·  30s");
    assert_eq!(game.compact_crop_line(&catalog), "Radish seed:3 buy:$5 sell:$15 grow:30s");
    game.coins = 10_000;
    game.run_earnings = 10_000;
    game.buy_upgrade(2, &upgrades);
    game.buy_upgrade(0, &upgrades);
    game.rebirth_tokens = 2;
    assert_eq!(game.machinery_levels(), 2);
    assert_eq!(game.header_tail(&upgrades), "  +20%  ⚙2  GROW +44%");
}

#[test]
fn the_drawn_window_stops_at_the_field() {
    // A full-size field panel of 54 by 16 cells holds 7 rows and 13 columns.
    assert_eq!(field_window(0, 0, 3, 3, 54, 16, false), (3, 3));
    assert_eq!(field_window(2, 1, 20, 20, 54, 16, false), (9, 14));
    // The compact layout: one cell row and two cell columns per tile.
    assert_eq!(field_window(0, 0, 20, 20, 40, 8, true), (6, 19));
    // At least one column is drawn, even in a sliver.
    assert_eq!(field_window(0, 0, 5, 5, 3, 3, false), (0, 1));
    assert!(field_window_fits(0, 0, 54, 16, false));
    assert!(!field_window_fits(u32::MAX, 0, 54, 16, false));
    assert!(field_window_fits(u32::MAX, 0, 54, 3, false));
}
