use terminalfarms::data::{CropCatalog, CropDefinition, DataError, UpgradeCatalog, UpgradeDefinition, UpgradeKind};

fn art() -> [[String; 2]; 4] {
    let cell = || "abc".to_string();
    [[cell(), cell()], [cell(), cell()], [cell(), cell()], [cell(), cell()]]
}

fn crop(id: &str, grow_seconds: u64) -> CropDefinition {
    CropDefinition {
        id: id.to_string(),
        name: id.to_uppercase(),
        seed_price: 1,
        sell_price: 3,
        grow_seconds,
        unlock_earnings: 0,
        color: "red".to_string(),
        art: art(),
    }
}

fn machine(id: &str, kind: UpgradeKind, interval_seconds: u64) -> UpgradeDefinition {
    UpgradeDefinition {
        id: id.to_string(),
        name: id.to_uppercase(),
        kind,
        base_price: 10,
        unlock_earnings: 0,
        interval_seconds,
        max_level: 3,
    }
}

#[test]
fn embedded_catalog_is_valid() {
    let catalog = CropCatalog::embedded().unwrap();
    assert_eq!(catalog.crops.first().unwrap().id, "radish");
    assert!(catalog.crops.len() >= 4);
    assert_eq!(catalog.crops.len(), 50);
    assert!(catalog.crops.windows(2).all(|w| w[0].unlock_earnings <= w[1].unlock_earnings));
}

#[test]
fn embedded_upgrades_are_valid() {
    let catalog = UpgradeCatalog::embedded().unwrap();
    assert_eq!(catalog.upgrades.first().unwrap().id, "cultivator");
    assert_eq!(catalog.upgrades.len(), 5);
}

#[test]
fn crops_are_found_by_id() {
    let catalog = CropCatalog::embedded().unwrap();
    assert_eq!(catalog.get("lettuce").unwrap().name, "Lettuce");
    assert_eq!(catalog.get("kohlrabi").unwrap().grow_seconds, 7_380);
    assert!(catalog.get("cabbage").is_none());
    let upgrades = UpgradeCatalog::embedded().unwrap();
    assert_eq!(upgrades.get("sprinkler").unwrap().kind, UpgradeKind::GrowthBoost);
    assert!(upgrades.get("tractor").is_none());
}

#[test]
fn crop_catalog_refusals_name_the_first_problem() {
    assert_eq!(CropCatalog { crops: vec![] }.validate(), Err(DataError::Empty));
    let repeated = CropCatalog { crops: vec![crop("pea", 5), crop("bean", 0), crop("pea", 5)] };
    assert_eq!(repeated.validate(), Err(DataError::InvalidCrop("bean".to_string())));
    let repeated = CropCatalog { crops: vec![crop("pea", 5), crop("bean", 5), crop("pea", 5)] };
    assert_eq!(repeated.validate(), Err(DataError::DuplicateId("pea".to_string())));
    let mut short_art = crop("leek", 5);
    short_art.art[3][1] = "ab".to_string();
    assert!(!short_art.is_valid());
    assert_eq!(
        CropCatalog { crops: vec![short_art] }.validate(),
        Err(DataError::InvalidCrop("leek".to_string()))
    );
    assert_eq!(CropCatalog { crops: vec![crop("pea", 5)] }.validate(), Ok(()));
}

#[test]
fn upgrade_catalog_refusals_name_the_first_problem() {
    assert_eq!(UpgradeCatalog { upgrades: vec![] }.validate(), Err(DataError::EmptyUpgrades));
    let untimed = UpgradeCatalog { upgrades: vec![machine("plough", UpgradeKind::AutoTill, 0)] };
    assert_eq!(untimed.validate(), Err(DataError::InvalidUpgrade("plough".to_string())));
    let timed_boost = machine("mister", UpgradeKind::GrowthBoost, 4);
    assert!(!timed_boost.is_valid());
    let repeated = UpgradeCatalog {
        upgrades: vec![machine("plough", UpgradeKind::AutoTill, 3), machine("plough", UpgradeKind::AutoSell, 3)],
    };
    assert_eq!(repeated.validate(), Err(DataError::DuplicateUpgradeId("plough".to_string())));
    assert!(machine("mister", UpgradeKind::GrowthBoost, 0).is_valid());
}
