//! Binding table and resolver tests: construction from configuration,
//! group indirection, conflict policy, and the help projection.

use whimsy::acts::{Act, AppAct, Dock, NamedAct};
use whimsy::binding::{ChoiceMap, Choices, CommandEntry, CommandOptions, GroupEntry, KeyConfig};
use whimsy::command::parse_cmd;
use whimsy::dispatch::{Resolution, Resolver};
use whimsy::table::CommandTable;

fn entry(name: &str, value: &str) -> CommandEntry {
    CommandEntry { name: name.to_string(), value: value.to_string() }
}

fn sample_config() -> KeyConfig {
    KeyConfig {
        groups: vec![GroupEntry {
            id: "view".to_string(),
            name: "View".to_string(),
            binding: "<cr> + g".to_string(),
            help: "View commands".to_string(),
            commands: vec![entry("next_tab", "n"), entry("previous_tab", "p")],
        }],
        commands: vec![entry("help", "h"), entry("maximize", "<alt> + m")],
    }
}

#[test]
fn config_builds_normal_mode() {
    let map = ChoiceMap::from_config(&sample_config());
    let normal = map.get_mode("normal").expect("normal mode is always present");
    let help = parse_cmd("h").unwrap();
    match normal.get(&help) {
        Some(CommandOptions::Acts(acts)) => {
            assert_eq!(acts.len(), 1);
            assert_eq!(acts[0], Act::App(AppAct::Help));
        },
        _ => panic!("expected the help action under 'h'"),
    }
    let group_chord = parse_cmd("<cr> + g").unwrap();
    match normal.get(&group_chord) {
        Some(CommandOptions::Commands(group)) => {
            assert_eq!(group.id, "view");
            assert_eq!(group.name, "View");
            assert_eq!(group.help, "View commands");
        },
        _ => panic!("expected the group reference under its binding"),
    }
    let inner = map.get_mode("view").expect("each valid group registers a mode");
    let next = parse_cmd("n").unwrap();
    match inner.get(&next) {
        Some(CommandOptions::Acts(acts)) => {
            assert_eq!(acts[0], Act::Dock(Dock::NextTab));
        },
        _ => panic!("expected the group's own binding"),
    }
}

#[test]
fn malformed_entries_are_dropped() {
    // Entries whose chord or token does not parse are dropped, never
    // fatal; an empty table is a valid degraded state.
    let cfg = KeyConfig {
        groups: vec![GroupEntry {
            id: "broken".to_string(),
            name: "Broken".to_string(),
            binding: "<cr> + ".to_string(),
            help: "unparseable binding".to_string(),
            commands: vec![],
        }],
        commands: vec![entry("no_such_action", "h"), entry("help", "<cr> + ")],
    };
    let map = ChoiceMap::from_config(&cfg);
    let normal = map.get_mode("normal").expect("normal survives a broken config");
    assert_eq!(normal.value().len(), 0);
    assert!(map.get_mode("broken").is_none());
}

#[test]
fn group_indirection_one_shot() {
    // A group chord opens the group for exactly one lookup; afterwards
    // lookups fall back to "normal", whether or not the second hit.
    let map = ChoiceMap::from_config(&sample_config());
    let mut resolver = Resolver::new(map);
    let open_group = parse_cmd("<cr> + g").unwrap();
    let inner = parse_cmd("n").unwrap();

    match resolver.resolve(&open_group) {
        Resolution::Group(id) => assert_eq!(id, "view"),
        _ => panic!("expected the group reference"),
    }
    assert_eq!(resolver.active, "view");
    match resolver.resolve(&inner) {
        Resolution::Acts(acts) => assert_eq!(acts[0], Act::Dock(Dock::NextTab)),
        _ => panic!("expected the group's action"),
    }
    // Third lookup: "n" means nothing in "normal".
    assert_eq!(resolver.active, "normal");
    match resolver.resolve(&inner) {
        Resolution::NotFound => {},
        _ => panic!("expected a miss back in normal mode"),
    }
    // A miss inside the group also returns to "normal".
    let _ = resolver.resolve(&open_group);
    let stray = parse_cmd("z").unwrap();
    match resolver.resolve(&stray) {
        Resolution::NotFound => {},
        _ => panic!("expected a miss in the group"),
    }
    assert_eq!(resolver.active, "normal");
}

#[test]
fn later_binding_wins() {
    // Two entries for one chord: the one merged later wins, an explicit
    // policy rather than an accident of merge order.
    let cfg = KeyConfig {
        groups: vec![],
        commands: vec![entry("help", "h"), entry("menu", "h")],
    };
    let map = ChoiceMap::from_config(&cfg);
    let normal = map.get_mode("normal").unwrap();
    let chord = parse_cmd("h").unwrap();
    match normal.get(&chord) {
        Some(CommandOptions::Acts(acts)) => assert_eq!(acts[0], Act::App(AppAct::Menu)),
        _ => panic!("expected the later binding"),
    }
}

#[test]
fn insert_front_wins() {
    let mut choices = Choices::new();
    let chord = parse_cmd("k").unwrap();
    choices.insert(parse_cmd("k").unwrap(), CommandOptions::from_act(Act::App(AppAct::Help)));
    choices.insert(parse_cmd("k").unwrap(), CommandOptions::from_act(Act::App(AppAct::Menu)));
    match choices.get(&chord) {
        Some(CommandOptions::Acts(acts)) => assert_eq!(acts[0], Act::App(AppAct::Menu)),
        _ => panic!("expected the newer binding"),
    }
}

#[test]
fn command_table_projection() {
    // The help projection renders each entry as chord text plus name,
    // purely: the table itself is not consulted for dispatch.
    let mut choices = Choices::new();
    choices.insert(
        parse_cmd("<alt> + m").unwrap(),
        CommandOptions::from_act(Act::App(AppAct::Maximize)),
    );
    let table = CommandTable::from_choices(&choices);
    assert_eq!(table.rows().len(), 1);
    assert_eq!(table.rows()[0].command, "<alt> + m");
    assert_eq!(table.rows()[0].act, "Maximize");
    assert!(table.rows()[0].visible);

    let kept = table.filter_visible(true);
    assert_eq!(kept.rows().len(), 1);
    let dropped = table.filter_visible(false);
    assert_eq!(dropped.rows().len(), 0);
}

#[test]
fn options_label_variants() {
    let acts = CommandOptions::from_act(Act::App(AppAct::Help));
    assert_eq!(acts.label(), "Help");
    let empty = CommandOptions::from_acts(Vec::new());
    assert_eq!(empty.label(), "Be");
}

#[test]
fn with_act_appends_only_to_action_lists() {
    let mut opts = CommandOptions::from_act(Act::App(AppAct::Help));
    opts.with_act(Act::App(AppAct::Menu));
    match &opts {
        CommandOptions::Acts(acts) => {
            assert_eq!(acts.len(), 2);
            assert_eq!(acts[1], Act::App(AppAct::Menu));
        },
        _ => panic!("expected an action list"),
    }
}

#[test]
fn named_key_defaults() {
    let mut choices = Choices::new();
    choices.named();
    assert_eq!(choices.value().len(), 7);
    let enter = whimsy::command::Command::from_named(&NamedAct::Enter);
    match choices.get(&enter) {
        Some(CommandOptions::Acts(acts)) => assert_eq!(acts[0], Act::Named(NamedAct::Enter)),
        _ => panic!("expected the enter binding"),
    }
    let noop = whimsy::command::Command::from_named(&NamedAct::Be);
    match choices.get(&noop) {
        Some(CommandOptions::Acts(acts)) => assert_eq!(acts[0], Act::Be),
        _ => panic!("expected the no-op binding"),
    }
}

#[test]
fn command_table_sorting() {
    let mut choices = Choices::new();
    choices.insert(parse_cmd("m").unwrap(), CommandOptions::from_act(Act::App(AppAct::Menu)));
    choices.insert(parse_cmd("a").unwrap(), CommandOptions::from_act(Act::App(AppAct::Help)));
    choices.insert(parse_cmd("z").unwrap(), CommandOptions::from_act(Act::App(AppAct::Maximize)));
    let mut table = CommandTable::from_choices(&choices);

    table.sort_rows(0, false);
    let commands: Vec<&str> = table.rows().iter().map(|r| r.command.as_str()).collect();
    assert_eq!(commands, vec!["a", "m", "z"]);

    table.sort_rows(0, true);
    let commands: Vec<&str> = table.rows().iter().map(|r| r.command.as_str()).collect();
    assert_eq!(commands, vec!["z", "m", "a"]);

    table.sort_rows(1, false);
    let acts: Vec<&str> = table.rows().iter().map(|r| r.act.as_str()).collect();
    assert_eq!(acts, vec!["Help", "Maximize", "Menu"]);

    // A column index beyond the table changes nothing.
    let before: Vec<String> = table.rows().iter().map(|r| r.command.clone()).collect();
    table.sort_rows(9, false);
    let after: Vec<String> = table.rows().iter().map(|r| r.command.clone()).collect();
    assert_eq!(before, after);
}

#[test]
fn search_filters_entries() {
    let entries = vec![
        ("alpha".to_string(), "first".to_string()),
        ("beta".to_string(), "second".to_string()),
        ("gamma".to_string(), "third".to_string()),
    ];
    let kept = whimsy::table::filter_entries(&entries, "ir");
    let keys: Vec<&str> = kept.iter().map(|e| e.0.as_str()).collect();
    assert_eq!(keys, vec!["alpha", "gamma"]);
    assert!(whimsy::table::entry_survives("beta", "second", "con"));
    assert!(!whimsy::table::entry_survives("beta", "second", "zz"));
}
