//! Character-sheet tests: attribute tables, derived statistics and the
//! encumbrance formulas, plus the identifier sources.

use whimsy::addresses::AddressColumns;
use whimsy::character::{
    basic_lift, basic_move, dodge_base, AttributeType, Attributes, DisplayColumns, Encumbrance,
    EncumbranceDodge, EncumbranceLevel, EncumbranceMove, EncumbranceType, EncumbranceWeight,
};
use whimsy::identifier::{Counter, Identifier, Name};
use whimsy::observer::Config;
use whimsy::table::TableConfig;

fn paeva_attributes() -> Attributes {
    Attributes::from_vec(vec![8, 12, 11, 9, 9, 11, 11, 9])
}

#[test]
fn attribute_values() {
    let attributes = paeva_attributes();
    assert_eq!(attributes.value(&AttributeType::Strength), 8);
    assert_eq!(attributes.value(&AttributeType::Dexterity), 12);
    assert_eq!(attributes.value(&AttributeType::Fatigue), 9);
    assert_eq!(attributes.name(&AttributeType::HitPoints), "Hit Points");
    let row = attributes.columns(&AttributeType::Dexterity);
    assert_eq!(row, vec!["Dexterity".to_string(), "12".to_string()]);
}

#[test]
fn attribute_rows_in_order() {
    let attributes = paeva_attributes();
    let mut iter = attributes.iter_columns();
    let mut names = Vec::new();
    while let Some(field) = iter.next() {
        names.push(field.name.clone());
    }
    assert_eq!(
        names,
        vec![
            "Strength".to_string(),
            "Dexterity".to_string(),
            "Intelligence".to_string(),
            "Health".to_string(),
            "Hit Points".to_string(),
            "Willpower".to_string(),
            "Perception".to_string(),
            "Fatigue".to_string(),
        ]
    );
    assert_eq!(DisplayColumns::names(), vec!["Name".to_string(), "Value".to_string()]);
}

#[test]
fn derived_statistics() {
    // Basic lift is strength squared over five; basic move and dodge
    // come from health plus dexterity over four, dropping fractions.
    assert_eq!(basic_lift(8), 12);
    assert_eq!(basic_lift(10), 20);
    assert_eq!(basic_move(9, 12), 5);
    assert_eq!(dodge_base(9, 12), 8);
}

#[test]
fn encumbrance_formulas() {
    let weight = EncumbranceWeight::from_basic_lift(12);
    assert_eq!(weight.value(&EncumbranceLevel::Unburdened), 12);
    assert_eq!(weight.value(&EncumbranceLevel::Light), 24);
    assert_eq!(weight.value(&EncumbranceLevel::Medium), 36);
    assert_eq!(weight.value(&EncumbranceLevel::Heavy), 72);
    assert_eq!(weight.value(&EncumbranceLevel::XHeavy), 120);

    let mv = EncumbranceMove::from_basic_move(5);
    assert_eq!(mv.value(&EncumbranceLevel::Unburdened), 5);
    assert_eq!(mv.value(&EncumbranceLevel::Light), 4);
    assert_eq!(mv.value(&EncumbranceLevel::Medium), 3);
    assert_eq!(mv.value(&EncumbranceLevel::Heavy), 2);
    assert_eq!(mv.value(&EncumbranceLevel::XHeavy), 1);

    let dodge = EncumbranceDodge::from_dodge(8);
    assert_eq!(dodge.value(&EncumbranceLevel::Unburdened), 8);
    assert_eq!(dodge.value(&EncumbranceLevel::XHeavy), 4);

    let table = Encumbrance::new(weight, mv, dodge);
    assert_eq!(table.value(&EncumbranceType::Weight, &EncumbranceLevel::Heavy), 72);
    assert_eq!(table.value(&EncumbranceType::Move, &EncumbranceLevel::Light), 4);
    assert_eq!(table.value(&EncumbranceType::Dodge, &EncumbranceLevel::Medium), 6);
    let row = table.columns(&EncumbranceLevel::Light);
    assert_eq!(
        row,
        vec!["Light".to_string(), "24".to_string(), "4".to_string(), "7".to_string()]
    );
}

#[test]
fn encumbrance_rows_in_order() {
    let table = Encumbrance::new(
        EncumbranceWeight::from_basic_lift(12),
        EncumbranceMove::from_basic_move(5),
        EncumbranceDodge::from_dodge(8),
    );
    let mut iter = table.iter_columns();
    let mut names = Vec::new();
    while let Some(field) = iter.next() {
        names.push(field.name.clone());
    }
    assert_eq!(
        names,
        vec![
            "None".to_string(),
            "Light".to_string(),
            "Medium".to_string(),
            "Heavy".to_string(),
            "Extra Heavy".to_string(),
        ]
    );
}

#[test]
fn counter_increments() {
    let mut counter = Counter::default();
    assert_eq!(counter.value(), 0);
    assert_eq!(counter.inc(), 1);
    assert_eq!(counter.inc(), 2);
    assert_eq!(counter.value(), 2);

    let mut id = Identifier::default();
    assert_eq!(id.number(), 1);
    assert_eq!(id.number(), 2);
}

#[test]
fn name_pool_is_unique() {
    let mut pool = Name::new();
    let first = pool.new_name();
    let second = pool.new_name();
    assert_ne!(first, second);
    let batch = pool.new_names(4);
    assert_eq!(batch.len(), 4);
    for (i, a) in batch.iter().enumerate() {
        assert_ne!(a, &first);
        assert_ne!(a, &second);
        for b in &batch[i + 1..] {
            assert_ne!(a, b);
        }
    }

    let mut id = Identifier::default();
    let named = id.name();
    let renamed = id.name();
    assert_ne!(named, renamed);
}

#[test]
fn observer_config_toggles() {
    let config = Config::default();
    assert!(!config.log && !config.notify);
    let config = config.log().notify();
    assert!(config.log && config.notify);
    let config = config.notify();
    assert!(config.log && !config.notify);
}

#[test]
fn table_config_builders() {
    let config = TableConfig::new().checked().resizable().with_search().with_slider().striped();
    assert!(config.checked);
    assert!(config.resizable);
    assert!(config.search);
    assert!(config.slider);
    assert!(config.striped);
    assert!(!config.case_sensitive);
    let config = config.case_sensitive();
    assert!(config.case_sensitive);
}

#[test]
fn address_column_names() {
    let names = AddressColumns::names();
    assert_eq!(names.len(), 9);
    assert_eq!(names[0], "Label");
    assert_eq!(names[2], "Directional Prefix");
    assert_eq!(names[8], "Status");
    assert_eq!(AddressColumns::from_index(3), Some(AddressColumns::StreetName));
    assert_eq!(AddressColumns::from_index(9), None);
    assert_eq!(AddressColumns::StreetType.label(), "Street Type");
}
