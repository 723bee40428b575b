use terminalfarms::data::{CropCatalog, UpgradeCatalog};
use terminalfarms::game::{GameError, GameState, TileState};
use terminalfarms::storage::{
    backup_path, check_schema, pending_migrations, save_record, InventoryRecord, PlayerRecord, SaveRecord,
    SavedPlayer, StorageError, TileRecord, UpgradeRecord, LATEST_SCHEMA,
};

fn read_back(player: &PlayerRecord) -> SavedPlayer {
    SavedPlayer {
        coins: player.coins,
        run_earnings: player.run_earnings,
        rebirth_tokens: player.rebirth_tokens,
        rebirth_count: player.rebirth_count,
        rows: player.rows,
        cols: player.cols,
        selected_crop: u32::try_from(player.selected_crop).unwrap(),
        last_seen_utc: player.last_seen_utc,
    }
}

fn load(record: SaveRecord, catalog: &CropCatalog, upgrades: &UpgradeCatalog) -> Result<GameState, StorageError> {
    GameState::from_saved(read_back(&record.player), record.tiles, record.inventory, record.upgrades, catalog, upgrades)
}

fn tile(row: u32, col: u32, state: &str, crop_id: Option<&str>) -> TileRecord {
    TileRecord { row, col, state: state.to_string(), crop_id: crop_id.map(str::to_string), progress_ms: 0 }
}

fn player() -> SavedPlayer {
    SavedPlayer {
        coins: 5,
        run_earnings: 7,
        rebirth_tokens: 0,
        rebirth_count: 0,
        rows: 2,
        cols: 2,
        selected_crop: 0,
        last_seen_utc: 9,
    }
}

#[test]
fn schemas_newer_than_known_are_refused() {
    assert_eq!(LATEST_SCHEMA, 2);
    assert_eq!(check_schema(3, true), Err(StorageError::NewerSchema { found: 3, supported: 2 }));
    assert_eq!(check_schema(1, true), Ok(true));
    assert_eq!(check_schema(1, false), Ok(false));
    assert_eq!(check_schema(0, true), Ok(false));
    assert_eq!(check_schema(2, true), Ok(false));
}

#[test]
fn migrations_run_from_the_saved_version() {
    assert_eq!(pending_migrations(0), vec![1, 2]);
    assert_eq!(pending_migrations(1), vec![2]);
    assert!(pending_migrations(2).is_empty());
}

#[test]
fn backups_are_named_by_time() {
    assert_eq!(backup_path(Some("farm"), 321), "farm.backup-321.db");
    assert_eq!(backup_path(None, -5), "terminalfarms.backup--5.db");
}

#[test]
fn a_saved_farm_reads_back_the_same() {
    let catalog = CropCatalog::embedded().unwrap();
    let upgrades = UpgradeCatalog::embedded().unwrap();
    let mut state = GameState::new(&catalog, 100);
    state.coins = 777;
    state.run_earnings = 1_000;
    state.buy_upgrade(0, &upgrades);
    state.use_tile(0, 0, &catalog);
    state.use_tile(0, 0, &catalog);
    state.apply_elapsed(12_000, 10_000);
    state.produce.insert("lettuce".to_string(), 4);
    let record = save_record(&state, 112).unwrap();
    assert_eq!(record.player.last_seen_utc, 112);
    assert_eq!(record.tiles.len(), 9);
    assert_eq!(record.tiles[0].state, "planted");
    assert_eq!(record.inventory.len(), 2);
    assert_eq!(record.inventory[0].kind, "seed");
    assert_eq!(record.inventory[1].kind, "produce");

    let loaded = load(record, &catalog, &upgrades).unwrap();
    assert_eq!(loaded.coins, 677);
    assert_eq!(loaded.run_earnings, 1_000);
    assert_eq!(loaded.upgrade_level("cultivator"), 1);
    assert_eq!(loaded.last_seen_utc, 112);
    assert_eq!(loaded.tiles, state.tiles);
    assert_eq!(loaded.seeds.get("radish"), Some(2));
    assert_eq!(loaded.produce.get("lettuce"), Some(4));
    assert!(matches!(
        loaded.tile(0, 0),
        Some(TileState::Planted { progress_ms: 12_000, .. })
    ));
}

#[test]
fn saving_refuses_counts_beyond_the_columns() {
    let catalog = CropCatalog::embedded().unwrap();
    let mut state = GameState::new(&catalog, 0);
    state.coins = u64::MAX;
    assert!(matches!(save_record(&state, 0), Err(StorageError::NumericOverflow(f)) if f == "coins"));
    state.coins = 1;
    state.run_earnings = 1 << 63;
    assert!(matches!(save_record(&state, 0), Err(StorageError::NumericOverflow(f)) if f == "run_earnings"));
}

#[test]
fn reading_refuses_bad_rows() {
    let catalog = CropCatalog::embedded().unwrap();
    let upgrades = UpgradeCatalog::embedded().unwrap();
    let load_rows = |p: SavedPlayer, tiles: Vec<TileRecord>, inventory: Vec<InventoryRecord>| {
        GameState::from_saved(p, tiles, inventory, Vec::new(), &catalog, &upgrades)
    };

    let negative = SavedPlayer { coins: -1, ..player() };
    assert!(matches!(load_rows(negative, vec![], vec![]), Err(StorageError::NumericOverflow(f)) if f == "coins"));
    let negative = SavedPlayer { run_earnings: -1, ..player() };
    assert!(matches!(
        load_rows(negative, vec![], vec![]),
        Err(StorageError::NumericOverflow(f)) if f == "run_earnings"
    ));

    let off_field = vec![tile(0, 0, "tilled", None), tile(2, 0, "tilled", None)];
    assert_eq!(
        load_rows(player(), off_field, vec![]).err(),
        Some(StorageError::InvalidGame(GameError::InvalidDimensions))
    );
    let wrong_state = vec![tile(0, 0, "planted", None)];
    assert_eq!(
        load_rows(player(), wrong_state, vec![]).err(),
        Some(StorageError::InvalidTileState("planted".to_string()))
    );
    let wrong_kind = vec![InventoryRecord { kind: "tool".to_string(), id: "hoe".to_string(), quantity: 1 }];
    assert_eq!(
        load_rows(player(), vec![], wrong_kind).err(),
        Some(StorageError::InvalidTileState("tool".to_string()))
    );
    let unknown_crop = vec![tile(1, 1, "planted", Some("cabbage"))];
    assert_eq!(
        load_rows(player(), unknown_crop, vec![]).err(),
        Some(StorageError::InvalidGame(GameError::UnknownCrop("cabbage".to_string())))
    );
}

#[test]
fn reading_places_tiles_and_stocks() {
    let catalog = CropCatalog::embedded().unwrap();
    let upgrades = UpgradeCatalog::embedded().unwrap();
    let tiles = vec![tile(1, 0, "tilled", None), tile(0, 1, "planted", Some("lettuce"))];
    let inventory = vec![
        InventoryRecord { kind: "seed".to_string(), id: "lettuce".to_string(), quantity: 2 },
        InventoryRecord { kind: "produce".to_string(), id: "spinach".to_string(), quantity: 5 },
    ];
    let machines = vec![UpgradeRecord { id: "sprinkler".to_string(), level: 2, elapsed_ms: 0 }];
    let state = GameState::from_saved(player(), tiles, inventory, machines, &catalog, &upgrades).unwrap();
    assert_eq!(state.tiles[0], TileState::Untilled);
    assert_eq!(
        state.tiles[1],
        TileState::Planted { crop_id: "lettuce".to_string(), progress_ms: 0 }
    );
    assert_eq!(state.tiles[2], TileState::Tilled);
    assert_eq!(state.seeds.get("lettuce"), Some(2));
    assert_eq!(state.produce.get("spinach"), Some(5));
    assert_eq!(state.upgrade_level("sprinkler"), 2);
    assert_eq!((state.coins, state.run_earnings, state.last_seen_utc), (5, 7, 9));
}
