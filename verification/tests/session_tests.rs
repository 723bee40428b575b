use terminalfarms::data::{CropCatalog, UpgradeCatalog};
use terminalfarms::game::{GameState, TileState};
use terminalfarms::layout::{shop_target, viewport_capacity, ShopTarget};
use terminalfarms::session::{
    colors_disabled, duration_text, handle_key, handle_mouse, move_axis, names_utf8_setting, startup_status,
    unicode_locale, unix_time, App, Key, MouseInput, MouseKind,
};

fn test_app() -> App {
    let catalog = CropCatalog::embedded().unwrap();
    let upgrade_catalog = UpgradeCatalog::embedded().unwrap();
    App {
        game: GameState::new(&catalog, 0),
        catalog,
        upgrade_catalog,
        cursor_row: 0,
        cursor_col: 0,
        offset_row: 0,
        offset_col: 0,
        status: "No Radish seeds".into(),
        hovered_shop: None,
        shop_offset: 0,
        reset_armed: false,
        force_compatibility: false,
        no_color: false,
        quit: false,
        redraw: false,
    }
}

#[test]
fn cursor_movement_clamps_to_farm() {
    assert_eq!(move_axis(0, -1, 3), 0);
    assert_eq!(move_axis(2, 1, 3), 2);
    assert_eq!(move_axis(1, -1, 3), 0);
}

#[test]
fn duration_is_compact() {
    assert_eq!(duration_text(90), "1m");
    assert_eq!(duration_text(90_000), "1d 1h");
}

#[test]
fn shop_mouse_clicks_buy_land_instead_of_using_tile() {
    let mut app = test_app();
    app.game.coins = 1_000;
    let row_click = MouseInput { kind: MouseKind::LeftDown, column: 64, row: 15 };
    assert!(handle_mouse(&mut app, row_click, 80, 24));
    assert_eq!(app.game.rows, 4);
    assert!(app.status.starts_with("Bought row"));

    let column_click = MouseInput { row: 16, ..row_click };
    assert!(handle_mouse(&mut app, column_click, 80, 24));
    assert_eq!(app.game.cols, 4);
    assert!(app.status.starts_with("Bought column"));
}

#[test]
fn mouse_movement_tracks_shop_hover() {
    let mut app = test_app();
    let shop_move = MouseInput { kind: MouseKind::Moved, column: 64, row: 15 };
    assert!(!handle_mouse(&mut app, shop_move, 80, 24));
    assert_eq!(app.hovered_shop, Some(ShopTarget::Row));
    assert!(app.redraw);

    app.redraw = false;
    let farm_move = MouseInput { column: 20, row: 10, ..shop_move };
    assert!(!handle_mouse(&mut app, farm_move, 80, 24));
    assert_eq!(app.hovered_shop, None);
    assert!(app.redraw);
}

#[test]
fn shop_hit_test_maps_land_rows() {
    assert_eq!(shop_target(64, 15, 80, 24, 4, 5, false), Some(ShopTarget::Row));
    assert_eq!(shop_target(64, 16, 80, 24, 4, 5, false), Some(ShopTarget::Column));
    assert_eq!(shop_target(64, 18, 80, 24, 4, 5, false), Some(ShopTarget::Reset));
    assert_eq!(shop_target(20, 15, 80, 24, 4, 5, false), None);
}

#[test]
fn shop_hit_test_maps_crop_and_machine_rows() {
    assert_eq!(shop_target(64, 5, 80, 24, 4, 5, false), Some(ShopTarget::Crop(0)));
    assert_eq!(shop_target(64, 8, 80, 24, 4, 5, false), Some(ShopTarget::Crop(3)));
    assert_eq!(shop_target(64, 9, 80, 24, 4, 5, false), None);
    assert_eq!(shop_target(64, 10, 80, 24, 4, 5, false), Some(ShopTarget::Upgrade(0)));
    assert_eq!(shop_target(64, 17, 80, 24, 4, 5, false), Some(ShopTarget::Rebirth));
    assert_eq!(shop_target(64, 15, 80, 24, 4, 5, true), None);
    assert_eq!(shop_target(64, 15, 79, 24, 4, 5, false), None);
}

#[test]
fn viewport_fits_the_screen() {
    assert_eq!(viewport_capacity(80, 24, false), (7, 13));
    assert_eq!(viewport_capacity(40, 14, true), (6, 19));
    assert_eq!(viewport_capacity(2, 2, true), (1, 1));
}

#[test]
fn keys_move_work_and_quit() {
    let mut app = test_app();
    assert!(!handle_key(&mut app, Key::Down, 80, 24));
    assert!(!handle_key(&mut app, Key::Char('d'), 80, 24));
    assert_eq!((app.cursor_row, app.cursor_col), (1, 1));
    assert!(handle_key(&mut app, Key::Enter, 80, 24));
    assert_eq!(app.status, "Tilled soil");
    assert_eq!(app.game.tile(1, 1), Some(&TileState::Tilled));
    assert!(handle_key(&mut app, Key::Char(']'), 80, 24));
    assert_eq!(app.status, "Selected Lettuce");
    assert!(!handle_key(&mut app, Key::Char('q'), 80, 24));
    assert!(app.quit);
}

#[test]
fn number_keys_buy_machines() {
    let mut app = test_app();
    app.game.coins = 500;
    assert!(handle_key(&mut app, Key::Char('1'), 80, 24));
    assert_eq!(app.status, "Cultivator upgraded to level 1");
    assert!(!handle_key(&mut app, Key::Char('2'), 80, 24));
    assert_eq!(app.status, "Seed Drill unlocks at $100");
}

#[test]
fn rebirth_puts_the_cursor_home() {
    let mut app = test_app();
    app.game.coins = 10_000;
    app.game.buy_row();
    app.cursor_row = 3;
    app.cursor_col = 2;
    app.offset_row = 1;
    app.game.run_earnings = 2_500;
    assert!(handle_key(&mut app, Key::Char('r'), 80, 24));
    assert_eq!(app.status, "Rebirth 1: +1 permanent token");
    assert_eq!((app.cursor_row, app.cursor_col, app.offset_row, app.offset_col), (0, 0, 0, 0));
    assert_eq!(app.game.rows, 3);
}

#[test]
fn clicking_a_tile_selects_then_works_it() {
    let mut app = test_app();
    let click = MouseInput { kind: MouseKind::LeftDown, column: 6, row: 6 };
    assert!(!handle_mouse(&mut app, click, 80, 24));
    assert_eq!((app.cursor_row, app.cursor_col), (1, 1));
    assert!(handle_mouse(&mut app, click, 80, 24));
    assert_eq!(app.game.tile(1, 1), Some(&TileState::Tilled));
    let right = MouseInput { kind: MouseKind::RightDown, column: 2, row: 4 };
    assert!(handle_mouse(&mut app, right, 80, 24));
    assert_eq!(app.game.tile(0, 0), Some(&TileState::Tilled));
}

#[test]
fn clicking_a_crop_row_selects_then_buys() {
    let mut app = test_app();
    app.game.run_earnings = 100;
    let lettuce = MouseInput { kind: MouseKind::LeftDown, column: 64, row: 6 };
    assert!(handle_mouse(&mut app, lettuce, 80, 24));
    assert_eq!(app.status, "Selected Lettuce");
    assert!(handle_mouse(&mut app, lettuce, 80, 24));
    assert_eq!(app.status, "Bought Lettuce seed");
    assert_eq!(app.game.coins, 10);
}

#[test]
fn the_wheel_scrolls_within_the_field() {
    let mut app = test_app();
    let down = MouseInput { kind: MouseKind::ScrollDown, column: 10, row: 10 };
    assert!(!handle_mouse(&mut app, down, 80, 24));
    assert_eq!(app.offset_row, 2);
    let up = MouseInput { kind: MouseKind::ScrollUp, ..down };
    assert!(!handle_mouse(&mut app, up, 80, 24));
    assert_eq!(app.offset_row, 0);
}

#[test]
fn the_clock_grows_crops_and_runs_machines() {
    let mut app = test_app();
    app.game.use_tile(0, 0, &app.catalog);
    app.game.use_tile(0, 0, &app.catalog);
    assert!(!app.tick(8_000));
    assert!(matches!(app.game.tile(0, 0), Some(TileState::Planted { progress_ms: 10_000, .. })));
    app.game.coins = 500;
    app.game.buy_upgrade(0, &app.upgrade_catalog);
    assert!(app.tick(15_000));
    assert_eq!(app.status, "Cultivator tilled soil");
}

#[test]
fn compact_layout_follows_the_screen() {
    let mut app = test_app();
    assert!(!app.compatibility(80, 24));
    assert!(app.compatibility(79, 24));
    assert!(app.compatibility(80, 23));
    app.force_compatibility = true;
    assert!(app.compatibility(200, 60));
}

#[test]
fn view_follows_the_cursor() {
    let mut app = test_app();
    app.game.coins = 1_000_000;
    for _ in 0..8 {
        app.game.buy_row();
    }
    app.cursor_row = 10;
    app.keep_cursor_visible(80, 24);
    assert_eq!(app.offset_row, 4);
    app.cursor_row = 0;
    app.keep_cursor_visible(80, 24);
    assert_eq!(app.offset_row, 0);
}

#[test]
fn startup_reports_offline_growth() {
    assert_eq!(startup_status(0), "Ready");
    assert_eq!(startup_status(3_700), "Offline growth: 1h 1m");
    assert_eq!(duration_text(45), "45s");
}

#[test]
fn catching_up_grows_crops_for_the_time_away() {
    let catalog = CropCatalog::embedded().unwrap();
    let upgrades = UpgradeCatalog::embedded().unwrap();
    let mut game = GameState::new(&catalog, 100);
    game.use_tile(0, 0, &catalog);
    game.use_tile(0, 0, &catalog);
    assert_eq!(game.catch_up(&catalog, &upgrades, 112), 12);
    assert_eq!(game.last_seen_utc, 112);
    assert!(matches!(game.tile(0, 0), Some(TileState::Planted { progress_ms: 12_000, .. })));
    assert_eq!(game.catch_up(&catalog, &upgrades, 50), 0);
}

#[test]
fn clock_seconds_are_capped() {
    assert_eq!(unix_time(1_700_000_000), 1_700_000_000);
    assert_eq!(unix_time(u64::MAX), i64::MAX);
}

#[test]
fn locale_settings_decide_unicode() {
    assert!(names_utf8_setting("en_US.UTF-8"));
    assert!(names_utf8_setting("de_DE.utf8"));
    assert!(!names_utf8_setting("C"));
    assert!(!names_utf8_setting("UTF"));
    assert!(unicode_locale(None, None, Some("en_GB.UTF-8")));
    assert!(!unicode_locale(Some("C"), None, None));
    assert!(!unicode_locale(None, None, None));
}

#[test]
fn colours_turn_off_on_request() {
    assert!(colors_disabled(true, false, None));
    assert!(colors_disabled(false, true, Some("xterm")));
    assert!(colors_disabled(false, false, Some("dumb")));
    assert!(!colors_disabled(false, false, Some("xterm-256color")));
    assert!(!colors_disabled(false, false, None));
}
