use terminalfarms::data::{CropCatalog, UpgradeCatalog};
use terminalfarms::price::sale_amount_of;
use terminalfarms::game::{
    combine_multipliers, saturating_mul, saturating_pow2, ActionResult, GameError, GameState, TileState,
    ACTIVE_GROWTH_MULTIPLIER, MULTIPLIER_ONE, STARTING_COINS, STARTING_SIZE,
};

fn catalog() -> CropCatalog {
    CropCatalog::embedded().unwrap()
}

fn upgrades() -> UpgradeCatalog {
    UpgradeCatalog::embedded().unwrap()
}

#[test]
fn active_time_advances_crops_faster() {
    let catalog = catalog();
    let mut game = GameState::new(&catalog, 0);
    game.use_tile(0, 0, &catalog);
    game.use_tile(0, 0, &catalog);
    game.apply_elapsed(10_000, ACTIVE_GROWTH_MULTIPLIER);
    assert!(matches!(
        game.tile(0, 0),
        Some(TileState::Planted { progress_ms, .. }) if *progress_ms == 12_500
    ));
}

#[test]
fn expansion_preserves_existing_tiles() {
    let catalog = catalog();
    let mut game = GameState::new(&catalog, 0);
    game.coins = 10_000;
    game.use_tile(1, 2, &catalog);
    assert!(game.buy_column().changed());
    assert_eq!(game.cols, 4);
    assert_eq!(game.tile(1, 2), Some(&TileState::Tilled));
    assert!(game.buy_row().changed());
    assert_eq!(game.rows, 4);
    game.validate(&catalog, &UpgradeCatalog::embedded().unwrap()).unwrap();
}

#[test]
fn rebirth_resets_run_and_preserves_tokens() {
    let catalog = catalog();
    let mut game = GameState::new(&catalog, 0);
    game.run_earnings = game.rebirth_requirement();
    game.coins = 99_999;
    assert!(game.rebirth(&catalog).changed());
    assert_eq!(game.coins, STARTING_COINS);
    assert_eq!(game.rebirth_tokens, 1);
    assert_eq!(game.rows, STARTING_SIZE);
}

#[test]
fn machinery_automates_farm_actions() {
    let crops = catalog();
    let upgrades = UpgradeCatalog::embedded().unwrap();
    let mut game = GameState::new(&crops, 0);
    game.coins = 10_000;
    game.run_earnings = 10_000;
    assert!(game.buy_upgrade(0, &upgrades).changed());
    let messages = game.run_automation(20_000, &crops, &upgrades);
    assert_eq!(messages.len(), 1);
    assert_eq!(game.tile(0, 0), Some(&TileState::Tilled));
}

#[test]
fn new_farm_starts_small_with_radish_seeds() {
    let catalog = catalog();
    let game = GameState::new(&catalog, 42);
    assert_eq!(game.coins, 20);
    assert_eq!((game.rows, game.cols), (3, 3));
    assert_eq!(game.tiles.len(), 9);
    assert!(game.tiles.iter().all(|t| *t == TileState::Untilled));
    assert_eq!(game.seeds.get("radish"), Some(3));
    assert_eq!(game.last_seen_utc, 42);
    assert_eq!(game.selected_crop, 0);
}

#[test]
fn working_a_tile_tills_sows_and_harvests() {
    let catalog = catalog();
    let mut game = GameState::new(&catalog, 0);
    assert_eq!(game.use_tile(0, 0, &catalog), ActionResult::Changed("Tilled soil".to_string()));
    assert_eq!(game.use_tile(0, 0, &catalog), ActionResult::Changed("Sowed Radish".to_string()));
    assert_eq!(game.seeds.get("radish"), Some(2));
    assert_eq!(
        game.use_tile(0, 0, &catalog),
        ActionResult::Unchanged("Radish: 30s remaining".to_string())
    );
    game.apply_elapsed(29_500, MULTIPLIER_ONE);
    assert_eq!(
        game.use_tile(0, 0, &catalog),
        ActionResult::Unchanged("Radish: 1s remaining".to_string())
    );
    game.apply_elapsed(500, MULTIPLIER_ONE);
    assert_eq!(game.use_tile(0, 0, &catalog), ActionResult::Changed("Harvested Radish".to_string()));
    assert_eq!(game.produce.get("radish"), Some(1));
    assert_eq!(game.tile(0, 0), Some(&TileState::Tilled));
}

#[test]
fn working_outside_the_farm_changes_nothing() {
    let catalog = catalog();
    let mut game = GameState::new(&catalog, 0);
    assert_eq!(game.use_tile(3, 0, &catalog), ActionResult::Unchanged("Outside farm".to_string()));
    assert_eq!(game.tile(0, 3), None);
}

#[test]
fn sowing_needs_seeds_and_an_unlocked_crop() {
    let catalog = catalog();
    let mut game = GameState::new(&catalog, 0);
    game.use_tile(0, 0, &catalog);
    game.selected_crop = 1;
    assert_eq!(
        game.use_tile(0, 0, &catalog),
        ActionResult::Unchanged("Lettuce unlocks at $100".to_string())
    );
    game.run_earnings = 100;
    assert_eq!(game.use_tile(0, 0, &catalog), ActionResult::Unchanged("No Lettuce seeds".to_string()));
    assert_eq!(game.seeds.get("lettuce"), Some(0));
}

#[test]
fn buying_seeds_costs_the_seed_price() {
    let catalog = catalog();
    let mut game = GameState::new(&catalog, 0);
    assert_eq!(game.buy_selected_seed(&catalog), ActionResult::Changed("Bought Radish seed".to_string()));
    assert_eq!(game.coins, 15);
    assert_eq!(game.seeds.get("radish"), Some(4));
    game.coins = 4;
    assert_eq!(game.buy_selected_seed(&catalog), ActionResult::Unchanged("Not enough money".to_string()));
}

#[test]
fn selling_adds_a_tenth_per_rebirth_token() {
    let catalog = catalog();
    let mut game = GameState::new(&catalog, 0);
    game.produce.insert("radish".to_string(), 3);
    game.produce.insert("lettuce".to_string(), 1);
    game.rebirth_tokens = 1;
    let result = game.sell_all(&catalog);
    // Radish: 3 * 15 = 45 -> 49.5..., lettuce: 35 -> 38.5; each rounded half away from zero.
    assert_eq!(result, ActionResult::Changed("Sold produce for $89".to_string()));
    assert_eq!(game.coins, 20 + 89);
    assert_eq!(game.run_earnings, 89);
    assert_eq!(game.produce.get("radish"), None);
    assert_eq!(game.sell_all(&catalog), ActionResult::Unchanged("No produce to sell".to_string()));
}

#[test]
fn prices_grow_with_the_farm() {
    let catalog = catalog();
    let upgrades = upgrades();
    let mut game = GameState::new(&catalog, 0);
    assert_eq!(game.row_cost(), 100);
    assert_eq!(game.column_cost(), 100);
    assert_eq!(game.rebirth_requirement(), 2_500);
    game.rebirth_count = 3;
    assert_eq!(game.rebirth_requirement(), 20_000);
    assert_eq!(game.upgrade_cost(&upgrades.upgrades[0]), 100);
    game.coins = 1_000;
    game.run_earnings = 1_000;
    game.buy_upgrade(0, &upgrades);
    game.buy_upgrade(0, &upgrades);
    assert_eq!(game.upgrade_level("cultivator"), 2);
    assert_eq!(game.upgrade_cost(&upgrades.upgrades[0]), 300);
    assert_eq!(game.coins, 1_000 - 100 - 200);
}

#[test]
fn machines_refuse_until_unlocked_and_affordable() {
    let catalog = catalog();
    let upgrades = upgrades();
    let mut game = GameState::new(&catalog, 0);
    assert_eq!(
        game.buy_upgrade(1, &upgrades),
        ActionResult::Unchanged("Seed Drill unlocks at $100".to_string())
    );
    assert_eq!(game.buy_upgrade(9, &upgrades), ActionResult::Unchanged("Unknown shop option".to_string()));
    game.run_earnings = 1_000;
    assert_eq!(
        game.buy_upgrade(0, &upgrades),
        ActionResult::Unchanged("Cultivator costs $100".to_string())
    );
    game.coins = 1_000_000;
    for level in 1..=5 {
        assert_eq!(
            game.buy_upgrade(0, &upgrades),
            ActionResult::Changed(format!("Cultivator upgraded to level {level}"))
        );
    }
    assert_eq!(
        game.buy_upgrade(0, &upgrades),
        ActionResult::Changed("Cultivator upgraded to level 6".to_string())
    );
    assert_eq!(game.upgrade_level("cultivator"), 6);
}

#[test]
fn land_and_rebirth_refuse_without_money() {
    let catalog = catalog();
    let mut game = GameState::new(&catalog, 0);
    game.coins = 99;
    assert_eq!(game.buy_row(), ActionResult::Unchanged("Row costs $100".to_string()));
    assert_eq!(game.buy_column(), ActionResult::Unchanged("Column costs $100".to_string()));
    assert_eq!(
        game.rebirth(&catalog),
        ActionResult::Unchanged("Rebirth requires $2500 earned".to_string())
    );
}

#[test]
fn growth_stages_follow_progress() {
    assert_eq!(GameState::growth_stage(0, 30), 0);
    assert_eq!(GameState::growth_stage(3_599, 30), 0);
    assert_eq!(GameState::growth_stage(3_600, 30), 1);
    assert_eq!(GameState::growth_stage(13_500, 30), 2);
    assert_eq!(GameState::growth_stage(30_000, 30), 3);
    assert_eq!(GameState::growth_stage(0, 0), 0);
}

#[test]
fn sprinklers_boost_growth() {
    let catalog = catalog();
    let upgrades = upgrades();
    let mut game = GameState::new(&catalog, 0);
    assert_eq!(game.growth_upgrade_multiplier(&upgrades), 10_000);
    game.coins = 10_000;
    game.run_earnings = 10_000;
    assert!(game.buy_upgrade(2, &upgrades).changed());
    assert_eq!(game.growth_upgrade_multiplier(&upgrades), 11_500);
    assert_eq!(combine_multipliers(ACTIVE_GROWTH_MULTIPLIER, 11_500), 14_375);
}

#[test]
fn saturating_helpers_stop_at_the_maximum() {
    assert_eq!(saturating_mul(3, 4), 12);
    assert_eq!(saturating_mul(u64::MAX, 2), u64::MAX);
    assert_eq!(saturating_pow2(10), 1_024);
    assert_eq!(saturating_pow2(64), u64::MAX);
}

#[test]
fn crop_selection_wraps_around() {
    let catalog = catalog();
    let mut game = GameState::new(&catalog, 0);
    game.select_previous_crop(&catalog);
    assert_eq!(game.selected_crop, 49);
    assert_eq!(game.selected_definition(&catalog).id, "kohlrabi");
    game.select_next_crop(&catalog);
    assert_eq!(game.selected_crop, 0);
    game.selected_crop = 170;
    assert_eq!(game.selected_definition(&catalog).id, "kohlrabi");
}

#[test]
fn validation_names_each_problem() {
    let catalog = catalog();
    let upgrades = upgrades();
    let mut game = GameState::new(&catalog, 0);
    game.tiles.pop();
    assert_eq!(game.validate(&catalog, &upgrades), Err(GameError::InvalidDimensions));

    let mut game = GameState::new(&catalog, 0);
    game.selected_crop = 50;
    assert_eq!(game.validate(&catalog, &upgrades), Err(GameError::InvalidSelection));

    let mut game = GameState::new(&catalog, 0);
    game.tiles[4] = TileState::Planted { crop_id: "cabbage".to_string(), progress_ms: 0 };
    game.tiles[7] = TileState::Planted { crop_id: "leek".to_string(), progress_ms: 0 };
    assert_eq!(game.validate(&catalog, &upgrades), Err(GameError::UnknownCrop("cabbage".to_string())));

    let mut game = GameState::new(&catalog, 0);
    game.upgrades.insert("wind_mill".to_string(), terminalfarms::game::UpgradeState { level: 1, elapsed_ms: 0 });
    game.upgrades.insert("tractor".to_string(), terminalfarms::game::UpgradeState { level: 1, elapsed_ms: 0 });
    assert_eq!(game.validate(&catalog, &upgrades), Err(GameError::UnknownUpgrade("tractor".to_string())));
}

#[test]
fn automation_runs_each_machine_in_turn() {
    let crops = catalog();
    let upgrades = upgrades();
    let mut game = GameState::new(&crops, 0);
    game.coins = 100_000;
    game.run_earnings = 100_000;
    assert!(game.buy_upgrade(0, &upgrades).changed());
    assert!(game.buy_upgrade(1, &upgrades).changed());
    let messages = game.run_automation(20_000, &crops, &upgrades);
    assert_eq!(
        messages,
        vec!["Cultivator tilled soil".to_string(), "Seed drill sowed Radish".to_string()]
    );
    assert!(matches!(game.tile(0, 0), Some(TileState::Planted { .. })));
    assert_eq!(game.seeds.get("radish"), Some(2));
}

fn double_precision_sale(base: u64, tokens: u32) -> u64 {
    let multiplier = 1.0 + f64::from(tokens) * 0.1;
    (base as f64 * multiplier).round() as u64
}

#[test]
fn sales_are_priced_in_double_precision() {
    let catalog = catalog();
    let mut game = GameState::new(&catalog, 0);
    game.produce.insert("radish".to_string(), 3);
    game.rebirth_tokens = 13;
    // 45 * 2.3 is 103.49999999999999 in double precision.
    assert_eq!(game.sell_all(&catalog), ActionResult::Changed("Sold produce for $103".to_string()));
    assert_eq!(game.coins, 20 + 103);
    let cases: [(u64, u32, u64); 10] = [
        (25, 13, 57),
        (55, 13, 126),
        (85, 13, 195),
        (95, 13, 218),
        (105, 13, 241),
        (15, 0, 15),
        (45, 2, 54),
        (1_000_000_000_000_000_000, 7, 1_700_000_000_000_000_256),
        (u64::MAX, 3, u64::MAX),
        (123_456_789, u32::MAX, 53_024_287_233_528_368),
    ];
    for (base, tokens, expected) in cases {
        assert_eq!(sale_amount_of(base, tokens), expected, "base {base}, tokens {tokens}");
    }
}

#[test]
fn sale_prices_match_double_arithmetic_across_inputs() {
    let mut base: u64 = 1;
    while base < 2_000_000 {
        for tokens in [0u32, 1, 2, 3, 7, 13, 29, 100, 1_000] {
            assert_eq!(sale_amount_of(base, tokens), double_precision_sale(base, tokens), "base {base}, tokens {tokens}");
        }
        base = base * 3 + 1;
    }
    for base in 0..2_000u64 {
        assert_eq!(sale_amount_of(base, 13), double_precision_sale(base, 13), "base {base}");
        assert_eq!(sale_amount_of(base, 5), double_precision_sale(base, 5), "base {base}");
    }
    for shift in 50..64u32 {
        let base = (1u64 << shift) + 12_345;
        for tokens in [0u32, 1, 9, 40] {
            assert_eq!(sale_amount_of(base, tokens), double_precision_sale(base, tokens), "base {base}, tokens {tokens}");
        }
    }
}
