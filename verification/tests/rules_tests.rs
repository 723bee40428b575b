use terminalfarms::data::{CropCatalog, CropDefinition, DataError, UpgradeCatalog, UpgradeKind};
use terminalfarms::game::{ActionResult, GameError, GameState, TileState};
use terminalfarms::layout::{shop_target, shop_target_scrolled, shop_window, ShopTarget};
use terminalfarms::session::{handle_key, handle_mouse, mouse_tile, App, Key, MouseInput, MouseKind};
use terminalfarms::storage::{SavedPlayer, StorageError};

fn app_with(catalog: CropCatalog) -> App {
    let upgrade_catalog = UpgradeCatalog::embedded().unwrap();
    App {
        game: GameState::new(&catalog, 0),
        catalog,
        upgrade_catalog,
        cursor_row: 0,
        cursor_col: 0,
        offset_row: 0,
        offset_col: 0,
        status: String::new(),
        hovered_shop: None,
        shop_offset: 0,
        reset_armed: false,
        force_compatibility: false,
        no_color: false,
        quit: false,
        redraw: false,
    }
}

fn crop(id: &str, seed_price: u64, sell_price: u64, grow_seconds: u64, unlock_earnings: u64) -> CropDefinition {
    let cell = || "(o)".to_string();
    CropDefinition {
        id: id.to_string(),
        name: id.to_string(),
        seed_price,
        sell_price,
        grow_seconds,
        unlock_earnings,
        color: "green".to_string(),
        art: [[cell(), cell()], [cell(), cell()], [cell(), cell()], [cell(), cell()]],
    }
}

#[test]
fn shipped_catalogs_hold_the_listed_values() {
    let crops = CropCatalog::embedded().unwrap();
    let radish = &crops.crops[0];
    assert_eq!((radish.seed_price, radish.sell_price, radish.grow_seconds, radish.unlock_earnings), (5, 15, 30, 0));
    assert_eq!(radish.art[3][1], "(o)");
    assert_eq!(crops.crops.len(), 50);
    assert_eq!(crops.crops[3].id, "carrot");
    let lettuce = &crops.crops[1];
    assert_eq!((lettuce.seed_price, lettuce.sell_price, lettuce.grow_seconds, lettuce.unlock_earnings), (10, 35, 180, 100));
    assert_eq!((lettuce.color.as_str(), lettuce.art[3][0].as_str()), ("yellow", "{#}"));
    let last = &crops.crops[49];
    assert_eq!(last.id, "kohlrabi");
    assert_eq!((last.seed_price, last.sell_price, last.grow_seconds, last.unlock_earnings), (250, 995, 7_380, 240_100));
    let machines = UpgradeCatalog::embedded().unwrap();
    let cultivator = &machines.upgrades[0];
    assert_eq!(cultivator.kind, UpgradeKind::AutoTill);
    assert_eq!((cultivator.base_price, cultivator.unlock_earnings, cultivator.interval_seconds), (100, 0, 15));
}

#[test]
fn catalogs_keep_the_economy_rules() {
    let cheap_sale = CropCatalog { crops: vec![crop("pea", 5, 14, 10, 0)] };
    assert_eq!(cheap_sale.validate(), Err(DataError::InvalidCrop("pea".to_string())));
    let slow = CropCatalog { crops: vec![crop("oak", 1, 3, 9_001, 0)] };
    assert_eq!(slow.validate(), Err(DataError::InvalidCrop("oak".to_string())));
    let mut wide = crop("kale", 1, 3, 10, 0);
    wide.art[0][0] = "░░░".to_string();
    assert_eq!(CropCatalog { crops: vec![wide] }.validate(), Err(DataError::InvalidCrop("kale".to_string())));
    let unlocks_earlier = CropCatalog { crops: vec![crop("pea", 1, 3, 10, 50), crop("bean", 1, 3, 20, 10)] };
    assert_eq!(unlocks_earlier.validate(), Err(DataError::InvalidCrop("bean".to_string())));
    let grows_faster = CropCatalog { crops: vec![crop("pea", 1, 3, 10, 0), crop("bean", 1, 3, 5, 10)] };
    assert_eq!(grows_faster.validate(), Err(DataError::InvalidCrop("bean".to_string())));
    let fine = CropCatalog { crops: vec![crop("pea", 1, 3, 10, 0), crop("bean", 1, 3, 10, 0)] };
    assert_eq!(fine.validate(), Ok(()));
}

#[test]
fn a_stranded_farm_gets_a_free_seed() {
    let catalog = CropCatalog::embedded().unwrap();
    let mut game = GameState::new(&catalog, 0);
    game.coins = 0;
    game.seeds.remove("radish");
    assert_eq!(game.buy_selected_seed(&catalog), ActionResult::Changed("Emergency Radish seed".to_string()));
    assert_eq!(game.seeds.get("radish"), Some(1));
    assert_eq!(game.coins, 0);

    game.seeds.remove("radish");
    game.produce.insert("radish".to_string(), 1);
    assert_eq!(game.buy_selected_seed(&catalog), ActionResult::Unchanged("Not enough money".to_string()));
    game.produce.remove("radish");
    game.tiles[0] = TileState::Planted { crop_id: "radish".to_string(), progress_ms: 0 };
    assert_eq!(game.buy_selected_seed(&catalog), ActionResult::Unchanged("Not enough money".to_string()));
}

#[test]
fn machines_cost_base_times_next_level_without_a_cap() {
    let catalog = CropCatalog::embedded().unwrap();
    let upgrades = UpgradeCatalog::embedded().unwrap();
    let mut game = GameState::new(&catalog, 0);
    game.coins = 1_000_000;
    for level in 1..=7u64 {
        assert_eq!(game.upgrade_cost(&upgrades.upgrades[0]), 100 * level);
        assert!(game.buy_upgrade(0, &upgrades).changed());
    }
    assert_eq!(game.upgrade_level("cultivator"), 7);
}

#[test]
fn each_machine_acts_once_per_level_per_cycle() {
    let catalog = CropCatalog::embedded().unwrap();
    let upgrades = UpgradeCatalog::embedded().unwrap();
    let mut game = GameState::new(&catalog, 0);
    game.coins = 10_000;
    game.buy_upgrade(0, &upgrades);
    game.buy_upgrade(0, &upgrades);
    // Level 2: a cycle takes 15 s / 2 and tills two tiles.
    let messages = game.run_automation(7_500, &catalog, &upgrades);
    assert_eq!(messages.len(), 2);
    assert_eq!(game.tile(0, 0), Some(&TileState::Tilled));
    assert_eq!(game.tile(0, 1), Some(&TileState::Tilled));
    assert_eq!(game.tile(0, 2), Some(&TileState::Untilled));
}

#[test]
fn catching_up_runs_the_machines_too() {
    let catalog = CropCatalog::embedded().unwrap();
    let upgrades = UpgradeCatalog::embedded().unwrap();
    let mut game = GameState::new(&catalog, 0);
    game.coins = 1_000;
    game.buy_upgrade(0, &upgrades);
    assert!(game.catch_up_is_safe(&catalog, &upgrades, 30));
    assert_eq!(game.catch_up(&catalog, &upgrades, 30), 30);
    assert_eq!(game.tile(0, 0), Some(&TileState::Tilled));
    assert_eq!(game.tile(0, 1), Some(&TileState::Tilled));
    assert_eq!(game.tile(0, 2), Some(&TileState::Untilled));
    assert_eq!(game.last_seen_utc, 30);
}

#[test]
fn shop_targets_stay_inside_the_panel() {
    assert_eq!(shop_target(64, 19, 80, 24, 5, 5, false), None);
    assert_eq!(shop_target(64, 18, 80, 24, 5, 5, false), Some(ShopTarget::Reset));
    assert_eq!(shop_window(24, 5, 5), 4);
    assert_eq!(shop_window(40, 5, 5), 5);
    assert_eq!(shop_target(64, 9, 80, 24, 5, 5, false), None);
    assert_eq!(shop_target_scrolled(64, 5, 80, 24, 6, 5, false, 2), Some(ShopTarget::Crop(2)));
    assert_eq!(shop_target_scrolled(64, 8, 80, 24, 6, 5, false, 3), None);
}

#[test]
fn the_wheel_over_the_shop_scrolls_the_crop_list() {
    let mut crops = CropCatalog::embedded().unwrap().crops;
    crops.truncate(4);
    let mut app = app_with(CropCatalog { crops });
    let wheel = MouseInput { kind: MouseKind::ScrollDown, column: 64, row: 10 };
    assert!(!handle_mouse(&mut app, wheel, 80, 24));
    assert_eq!((app.shop_offset, app.offset_row), (0, 0));

    let mut crops = CropCatalog::embedded().unwrap().crops;
    crops.truncate(4);
    crops.push(crop("kale2", 200, 600, 900, 5_000));
    crops.push(crop("leek2", 300, 900, 1_200, 9_000));
    let mut app = app_with(CropCatalog { crops });
    assert!(!handle_mouse(&mut app, wheel, 80, 24));
    assert_eq!((app.shop_offset, app.offset_row), (2, 0));
    let up = MouseInput { kind: MouseKind::ScrollUp, ..wheel };
    assert!(!handle_mouse(&mut app, up, 80, 24));
    assert_eq!(app.shop_offset, 0);

    let mut app = app_with(CropCatalog::embedded().unwrap());
    assert!(!handle_mouse(&mut app, wheel, 80, 24));
    assert!(!handle_mouse(&mut app, wheel, 80, 24));
    assert_eq!(app.shop_offset, 6);
    assert!(!handle_mouse(&mut app, up, 80, 24));
    assert_eq!(app.shop_offset, 3);
}

#[test]
fn a_second_reset_key_starts_a_new_farm() {
    let mut app = app_with(CropCatalog::embedded().unwrap());
    app.game.coins = 500;
    app.game.use_tile(0, 0, &app.catalog);
    assert!(!handle_key(&mut app, Key::Char('x'), 80, 24));
    assert!(app.reset_armed);
    assert_eq!(app.game.coins, 500);
    assert!(handle_key(&mut app, Key::Char('x'), 80, 24));
    assert!(!app.reset_armed);
    assert_eq!(app.game.coins, 20);
    assert_eq!(app.game.tile(0, 0), Some(&TileState::Untilled));

    app.game.coins = 500;
    assert!(!handle_key(&mut app, Key::Char('x'), 80, 24));
    assert!(!handle_key(&mut app, Key::Down, 80, 24));
    assert!(!app.reset_armed);
    assert!(!handle_key(&mut app, Key::Char('x'), 80, 24));
    assert_eq!(app.game.coins, 500);
}

#[test]
fn compact_clicks_pick_the_tile_drawn_there() {
    let app = app_with(CropCatalog::embedded().unwrap());
    let at = |column: u16, row: u16| MouseInput { kind: MouseKind::LeftDown, column, row };
    assert_eq!(mouse_tile(&app, at(2, 3), 40, 14, true), Some((0, 1)));
    assert_eq!(mouse_tile(&app, at(0, 3), 40, 14, true), Some((0, 0)));
    assert_eq!(mouse_tile(&app, at(5, 5), 40, 14, true), Some((2, 2)));
    assert_eq!(mouse_tile(&app, at(0, 2), 40, 14, true), None);
    assert_eq!(mouse_tile(&app, at(6, 6), 80, 24, false), Some((1, 1)));
}

#[test]
fn oversized_farms_are_refused_without_panicking() {
    let catalog = CropCatalog::embedded().unwrap();
    let upgrades = UpgradeCatalog::embedded().unwrap();
    let mut game = GameState::new(&catalog, 0);
    game.rows = 100_000;
    game.cols = 100_000;
    assert_eq!(game.validate(&catalog, &upgrades), Err(GameError::InvalidDimensions));
    let player = SavedPlayer {
        coins: 0,
        run_earnings: 0,
        rebirth_tokens: 0,
        rebirth_count: 0,
        rows: 100_000,
        cols: 100_000,
        selected_crop: 0,
        last_seen_utc: 0,
    };
    assert_eq!(
        GameState::from_saved(player, vec![], vec![], vec![], &catalog, &upgrades).err(),
        Some(StorageError::InvalidGame(GameError::InvalidDimensions))
    );
}
