//! Action token tests: the bidirectional token table, indices and labels.

use whimsy::acts::{Act, AppAct, Dock, EguiAct, NamedAct};

#[test]
fn iterate_enum() {
    // The variants enumerate in index order, so sorting by index keeps
    // the standard order.
    let egui = EguiAct::variants();
    let named = NamedAct::variants();
    let app = AppAct::variants();
    let standard: Vec<String> = egui.iter().map(|x| x.label()).collect();
    let mut by_idx: Vec<(usize, String)> = egui.iter().map(|x| (x.idx(), x.label())).collect();
    by_idx.sort_by_key(|p| p.0);
    let sorted: Vec<String> = by_idx.into_iter().map(|p| p.1).collect();
    assert_eq!(standard, sorted);

    let standard: Vec<String> = named.iter().map(|x| x.label()).collect();
    let mut by_idx: Vec<(usize, String)> = named.iter().map(|x| (x.idx(), x.label())).collect();
    by_idx.sort_by_key(|p| p.0);
    let sorted: Vec<String> = by_idx.into_iter().map(|p| p.1).collect();
    assert_eq!(standard, sorted);

    let standard: Vec<String> = app.iter().map(|x| x.label()).collect();
    let mut by_idx: Vec<(usize, String)> = app.iter().map(|x| (x.idx(), x.label())).collect();
    by_idx.sort_by_key(|p| p.0);
    let sorted: Vec<String> = by_idx.into_iter().map(|p| p.1).collect();
    assert_eq!(standard, sorted);
}

#[test]
fn token_table_round_trip() {
    // The configuration token table is bidirectional: every variant's
    // token resolves back to the variant.
    for act in NamedAct::variants() {
        assert_eq!(NamedAct::from_cmd(&act.cmd()), Some(act));
    }
    for act in Dock::variants() {
        assert_eq!(Dock::from_cmd(&act.cmd()), Some(act));
    }
    for act in AppAct::variants() {
        assert_eq!(AppAct::from_cmd(&act.cmd()), Some(act));
    }
}

#[test]
fn category_indices() {
    assert_eq!(AppAct::Help.idx(), 0);
    assert_eq!(AppAct::Be.idx(), 7);
    assert_eq!(EguiAct::FocusedLeaf.idx(), 10);
    assert_eq!(NamedAct::ArrowRight.idx(), 5);
    assert_eq!(Dock::InspectRecords.idx(), 7);
    assert_eq!(Act::App(AppAct::Menu).idx(), 1);
    assert_eq!(Act::Egui(EguiAct::Right).idx(), 100);
    assert_eq!(Act::Named(NamedAct::Enter).idx(), 200);
    assert_eq!(Act::Dock(Dock::CurrentTab).idx(), 300);
    assert_eq!(Act::Be.idx(), 999);
}

#[test]
fn act_from_cmd_categories() {
    assert_eq!(Act::from_cmd("help"), Some(Act::App(AppAct::Help)));
    assert_eq!(Act::from_cmd("next_row"), Some(Act::Egui(EguiAct::NextRow)));
    assert_eq!(Act::from_cmd("arrow_up"), Some(Act::Named(NamedAct::ArrowUp)));
    assert_eq!(Act::from_cmd("next_surface"), Some(Act::Dock(Dock::NextSurface)));
    assert_eq!(Act::from_cmd("no_such_action"), None);
    // The shared no-op token resolves to the first category's no-op.
    assert_eq!(Act::from_cmd("be"), Some(Act::App(AppAct::Be)));
}

#[test]
fn default_tokens_are_noops() {
    assert_eq!(Act::new(), Act::Be);
    assert_eq!(AppAct::new(), AppAct::Be);
    assert_eq!(EguiAct::new(), EguiAct::Be);
    assert_eq!(NamedAct::new(), NamedAct::Be);
    assert_eq!(Dock::new(), Dock::Be);
    assert_eq!(NamedAct::Be.cmd(), "be");
    assert_eq!(Dock::CurrentTab.cmd(), "select_current");
}
