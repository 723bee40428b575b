use terminalfarms::data::{CropCatalog, UpgradeCatalog};
use terminalfarms::game::{GameState, TileState, UpgradeState, ACTIVE_GROWTH_MULTIPLIER, MULTIPLIER_ONE};
use terminalfarms::keyed::TextMap;
use terminalfarms::session::{handle_key, save_due, App, Key};
use terminalfarms::storage::backup_path;
use terminalfarms::text::{compare_text, decimal_string, joined, push_signed_decimal, same_text, TextOrder};

fn app() -> App {
    let catalog = CropCatalog::embedded().unwrap();
    let upgrade_catalog = UpgradeCatalog::embedded().unwrap();
    App {
        game: GameState::new(&catalog, 0),
        catalog,
        upgrade_catalog,
        cursor_row: 0,
        cursor_col: 0,
        offset_row: 0,
        offset_col: 0,
        status: String::new(),
        hovered_shop: None,
        shop_offset: 0,
        reset_armed: false,
        force_compatibility: false,
        no_color: true,
        quit: false,
        redraw: false,
    }
}

#[test]
fn buying_land_keeps_every_tile_in_place() {
    let catalog = CropCatalog::embedded().unwrap();
    let mut game = GameState::new(&catalog, 0);
    game.coins = 10_000;
    game.use_tile(0, 2, &catalog);
    game.use_tile(2, 0, &catalog);
    game.use_tile(2, 0, &catalog);
    let before: Vec<TileState> = game.tiles.clone();
    assert!(game.buy_column().changed());
    for row in 0..3u32 {
        for col in 0..3u32 {
            assert_eq!(game.tile(row, col), Some(&before[(row * 3 + col) as usize]));
        }
        assert_eq!(game.tile(row, 3), Some(&TileState::Untilled));
    }
    assert!(game.buy_row().changed());
    assert_eq!(game.tiles.len(), 16);
    assert_eq!(game.tile(2, 0), Some(&before[6]));
    assert!((0..4u32).all(|col| game.tile(3, col) == Some(&TileState::Untilled)));
}

#[test]
fn a_valid_farm_stays_valid_through_play() {
    let catalog = CropCatalog::embedded().unwrap();
    let upgrades = UpgradeCatalog::embedded().unwrap();
    let mut game = GameState::new(&catalog, 0);
    game.coins = 100_000;
    game.run_earnings = 100_000;
    game.use_tile(1, 1, &catalog);
    game.use_tile(1, 1, &catalog);
    game.buy_upgrade(0, &upgrades);
    game.buy_upgrade(3, &upgrades);
    game.buy_column();
    game.buy_row();
    game.select_previous_crop(&catalog);
    game.buy_selected_seed(&catalog);
    game.apply_elapsed(600_000, ACTIVE_GROWTH_MULTIPLIER);
    game.run_automation(60_000, &catalog, &upgrades);
    game.sell_all(&catalog);
    assert_eq!(game.validate(&catalog, &upgrades), Ok(()));
    assert_eq!(game.tiles.len(), (game.rows * game.cols) as usize);
    game.run_earnings = game.rebirth_requirement();
    game.rebirth(&catalog);
    assert_eq!(game.validate(&catalog, &upgrades), Ok(()));
}

#[test]
fn growth_is_exact_at_one_and_faster_while_active() {
    let catalog = CropCatalog::embedded().unwrap();
    let mut offline = GameState::new(&catalog, 0);
    offline.use_tile(0, 0, &catalog);
    offline.use_tile(0, 0, &catalog);
    let mut active = GameState::new(&catalog, 0);
    active.use_tile(0, 0, &catalog);
    active.use_tile(0, 0, &catalog);
    offline.apply_elapsed(7_003, MULTIPLIER_ONE);
    active.apply_elapsed(7_003, ACTIVE_GROWTH_MULTIPLIER);
    let progress = |g: &GameState| match g.tile(0, 0) {
        Some(TileState::Planted { progress_ms, .. }) => *progress_ms,
        _ => 0,
    };
    assert_eq!(progress(&offline), 7_003);
    assert_eq!(progress(&active), 8_753);
    assert!(progress(&active) >= progress(&offline));
}

#[test]
fn growth_stages_never_go_back() {
    let mut last = 0;
    for progress in (0..=40_000u64).step_by(250) {
        let stage = GameState::growth_stage(progress, 30);
        assert!(stage >= last);
        assert_eq!(stage == 3, progress >= 30_000);
        last = stage;
    }
}

#[test]
fn next_then_previous_crop_comes_back() {
    let catalog = CropCatalog::embedded().unwrap();
    let mut game = GameState::new(&catalog, 0);
    for start in 0..4usize {
        game.selected_crop = start;
        game.select_next_crop(&catalog);
        game.select_previous_crop(&catalog);
        assert_eq!(game.selected_crop, start);
        game.select_previous_crop(&catalog);
        game.select_next_crop(&catalog);
        assert_eq!(game.selected_crop, start);
    }
}

#[test]
fn the_cursor_never_leaves_the_field() {
    let mut app = app();
    for _ in 0..5 {
        handle_key(&mut app, Key::Right, 80, 24);
        handle_key(&mut app, Key::Down, 80, 24);
    }
    assert_eq!((app.cursor_row, app.cursor_col), (2, 2));
    for _ in 0..5 {
        handle_key(&mut app, Key::Char('a'), 80, 24);
        handle_key(&mut app, Key::Char('w'), 80, 24);
    }
    assert_eq!((app.cursor_row, app.cursor_col), (0, 0));
}

#[test]
fn a_map_reads_back_what_was_written() {
    let mut map: TextMap<u32> = TextMap::new();
    map.insert("pea".to_string(), 1);
    map.insert("bean".to_string(), 2);
    map.insert("pea".to_string(), 3);
    assert_eq!(map.len(), 2);
    assert_eq!(map.get("pea"), Some(3));
    assert_eq!(map.get("bean"), Some(2));
    assert_eq!(map.key_at(0), "bean");
    assert_eq!(map.value_at(1), 3);
    assert_eq!(map.remove("bean"), Some(2));
    assert_eq!(map.get("bean"), None);
    assert_eq!(map.remove("bean"), None);
    assert!(map.values_below(4));
    assert!(!map.values_below(3));
}

#[test]
fn texts_compare_and_print() {
    assert_eq!(compare_text("bean", "pea"), TextOrder::Less);
    assert_eq!(compare_text("pea", "pea"), TextOrder::Equal);
    assert_eq!(compare_text("peas", "pea"), TextOrder::Greater);
    assert!(same_text("corn", "corn"));
    assert!(!same_text("corn", "Corn"));
    assert_eq!(decimal_string(0), "0");
    assert_eq!(decimal_string(1_234_567), "1234567");
    assert_eq!(joined("ab", "cd"), "abcd");
    let mut s = String::from("t=");
    push_signed_decimal(&mut s, i64::MIN);
    assert_eq!(s, "t=-9223372036854775808");
}

#[test]
fn backups_at_different_times_get_different_names() {
    assert_ne!(backup_path(Some("farm"), 12), backup_path(Some("farm"), -12));
    assert_ne!(backup_path(Some("farm"), 1), backup_path(Some("farm"), 11));
}

#[test]
fn machines_gain_no_entries_from_their_turns() {
    let catalog = CropCatalog::embedded().unwrap();
    let upgrades = UpgradeCatalog::embedded().unwrap();
    let mut game = GameState::new(&catalog, 0);
    game.coins = 1_000;
    game.buy_upgrade(0, &upgrades);
    game.run_automation(60_000, &catalog, &upgrades);
    assert_eq!(game.upgrades.len(), 1);
    assert_eq!(game.upgrade_level("cultivator"), 1);
    assert_eq!(game.upgrades.get("sprinkler"), None);
}

#[test]
fn a_reset_needs_two_presses_in_a_row() {
    let mut app = app();
    app.game.coins = 77;
    assert!(!handle_key(&mut app, Key::Char('x'), 80, 24));
    assert_eq!(app.game.coins, 77);
    assert!(handle_key(&mut app, Key::Char('x'), 80, 24));
    assert_eq!(app.game.coins, 20);
    assert_eq!(app.status, "Started a new farm");
}

#[test]
fn saving_follows_changes_and_the_autosave_interval() {
    assert!(save_due(true, 0));
    assert!(!save_due(false, 29_999));
    assert!(save_due(false, 30_000));
}

#[test]
fn idle_machines_and_growth_boosts_keep_their_timers() {
    let catalog = CropCatalog::embedded().unwrap();
    let upgrades = UpgradeCatalog::embedded().unwrap();
    let mut game = GameState::new(&catalog, 0);
    game.upgrades.insert("harvester".to_string(), UpgradeState { level: 0, elapsed_ms: 1_234 });
    game.upgrades.insert("sprinkler".to_string(), UpgradeState { level: 2, elapsed_ms: 4_321 });
    game.upgrades.insert("cultivator".to_string(), UpgradeState { level: 1, elapsed_ms: 0 });
    game.run_automation(10_000, &catalog, &upgrades);
    assert_eq!(game.upgrades.get("harvester"), Some(UpgradeState { level: 0, elapsed_ms: 1_234 }));
    assert_eq!(game.upgrades.get("sprinkler"), Some(UpgradeState { level: 2, elapsed_ms: 4_321 }));
    assert_eq!(game.upgrades.get("cultivator"), Some(UpgradeState { level: 1, elapsed_ms: 10_000 }));
}

#[test]
fn the_farm_check_accepts_farms_of_known_crops_and_machines() {
    let catalog = CropCatalog::embedded().unwrap();
    let upgrades = UpgradeCatalog::embedded().unwrap();
    let mut game = GameState::new(&catalog, 0);
    game.tiles[0] = TileState::Planted { crop_id: "kohlrabi".to_string(), progress_ms: 0 };
    game.upgrades.insert("market_stall".to_string(), UpgradeState { level: 3, elapsed_ms: 0 });
    assert!(game.validate(&catalog, &upgrades).is_ok());
    game.tiles[1] = TileState::Planted { crop_id: "kohlrabi2".to_string(), progress_ms: 0 };
    assert!(game.validate(&catalog, &upgrades).is_err());
}

#[test]
fn tile_work_that_changes_nothing_keeps_the_farm() {
    let catalog = CropCatalog::embedded().unwrap();
    let mut game = GameState::new(&catalog, 0);
    game.use_tile(0, 0, &catalog);
    game.selected_crop = 1;
    game.run_earnings = 100;
    let before_coins = game.coins;
    let result = game.use_tile(0, 0, &catalog);
    assert!(!result.changed());
    assert_eq!(game.seeds.get("lettuce"), Some(0));
    assert_eq!(game.coins, before_coins);
    assert_eq!(game.tile(0, 0), Some(&TileState::Tilled));
    assert_eq!(game.use_tile(0, 3, &catalog), terminalfarms::game::ActionResult::Unchanged("Outside farm".to_string()));
}
