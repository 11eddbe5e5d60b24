//! Cursor engine tests: wrap, singleton, empty, repair and cascade.

use whimsy::acts::Dock;
use whimsy::cursor::{ids_position, step_next, step_prev, NavOutcome};
use whimsy::dock::{FocusRequest, Record, Records, TabState};
use whimsy::focus::Tree;

fn snapshot(triples: &[(usize, usize, usize)]) -> Records {
    let mut records = Vec::new();
    for t in triples {
        records.push(Record::new(t.0, t.1, t.2));
    }
    Records::new(records)
}

#[test]
fn wrap_invariant() {
    // Advancing N times over a non-empty id list of length N returns the
    // cursor to its start, from any starting id.
    let ids: Vec<usize> = vec![2, 5, 9];
    for start in [2usize, 5, 9] {
        let mut cur = start;
        for _ in 0..ids.len() {
            let (next, out) = step_next(&ids, cur);
            assert!(matches!(out, NavOutcome::Moved));
            cur = next;
        }
        assert_eq!(cur, start);
    }
    // Retreating undoes advancing, from any position.
    for start in [2usize, 5, 9] {
        let (forward, _) = step_next(&ids, start);
        let (back, _) = step_prev(&ids, forward);
        assert_eq!(back, start);
    }
}

#[test]
fn singleton_invariant() {
    // A cursor over a one-element list never moves and reports no
    // movement, never an error.
    let ids: Vec<usize> = vec![7];
    let (next, out) = step_next(&ids, 7);
    assert_eq!(next, 7);
    assert!(matches!(out, NavOutcome::Held));
    let (prev, out) = step_prev(&ids, 7);
    assert_eq!(prev, 7);
    assert!(matches!(out, NavOutcome::Held));

    // The same at the engine level, over a one-surface hierarchy.
    let mut state = TabState::from_records(snapshot(&[(0, 0, 0)]));
    let out = state.next_surface(snapshot(&[(0, 0, 0)]));
    assert!(matches!(out, NavOutcome::Held));
    assert_eq!(state.surface, 0);
}

#[test]
fn empty_invariant() {
    // Any operation on an empty filtered id list reports failure and
    // leaves every cursor unchanged.
    let mut state = TabState::new();
    let out = state.next_surface(snapshot(&[]));
    assert!(matches!(out, NavOutcome::Empty));
    let out = state.previous_surface(snapshot(&[]));
    assert!(matches!(out, NavOutcome::Empty));
    let out = state.next_node(snapshot(&[]));
    assert!(matches!(out, NavOutcome::Empty));
    let out = state.previous_tab(snapshot(&[]));
    assert!(matches!(out, NavOutcome::Empty));
    assert_eq!(state.surface, 0);
    assert_eq!(state.node, 0);
    assert_eq!(state.tab, 0);
    assert!(state.surface_index.is_none());
    assert!(state.node_index.is_none());
    assert!(state.tab_index.is_none());
    assert!(state.take_focus_request().is_none());

    let empty: Vec<usize> = Vec::new();
    let (cur, out) = step_next(&empty, 4);
    assert_eq!(cur, 4);
    assert!(matches!(out, NavOutcome::Empty));
    assert!(ids_position(&empty, 4).is_none());
}

#[test]
fn repair_invariant() {
    // A stored cursor id absent from the freshly filtered list snaps to
    // the first id of that list and still reports success.
    let snap = snapshot(&[(0, 0, 0), (0, 1, 1)]);
    let mut state = TabState::from_records(snap);
    state.node = 99;
    let ok = state.update_active_node();
    assert!(ok);
    assert_eq!(state.node_index, Some(0));

    state.tab = 42;
    let ok = state.update_active_tab();
    assert!(ok);
    assert_eq!(state.tab_index, Some(0));
}

#[test]
fn cascade_scenario() {
    // Surfaces [S0, S1]; nodes S0: [N0, N1], S1: [N2]; tabs N0: [T0, T1],
    // N1: [T2], N2: [T3].  Starting at (S0, N0, T0), next_surface moves
    // to S1 and cascades to select N2, then T3.
    let triples = [(0, 0, 0), (0, 0, 1), (0, 1, 2), (1, 2, 3)];
    let mut state = TabState::from_records(snapshot(&triples));
    assert_eq!(state.surface_index, Some(0));
    assert_eq!(state.node_index, Some(0));
    assert_eq!(state.tab_index, Some(0));

    let out = state.next_surface(snapshot(&triples));
    assert!(matches!(out, NavOutcome::Moved));
    assert_eq!(state.surface_index, Some(1));
    assert_eq!(state.node_index, Some(2));
    assert_eq!(state.tab_index, Some(3));
    assert_eq!(state.take_focus_request(), Some(FocusRequest::Tab(1, 2, 3)));
    // The signal is one-shot: reading it clears it.
    assert_eq!(state.take_focus_request(), None);
}

#[test]
fn tab_navigation_wraps() {
    // Two tabs in one node: advancing twice returns to the first.
    let triples = [(0, 0, 0), (0, 0, 1)];
    let mut state = TabState::from_records(snapshot(&triples));
    let out = state.next_tab(snapshot(&triples));
    assert!(matches!(out, NavOutcome::Moved));
    assert_eq!(state.tab_index, Some(1));
    let out = state.next_tab(snapshot(&triples));
    assert!(matches!(out, NavOutcome::Moved));
    assert_eq!(state.tab_index, Some(0));
}

#[test]
fn dock_act_dispatch() {
    let triples = [(0, 0, 0), (0, 0, 1)];
    let mut state = TabState::from_records(snapshot(&triples));
    assert!(state.act(&Dock::NextTab, snapshot(&triples)));
    assert_eq!(state.tab_index, Some(1));
    assert!(state.act(&Dock::CurrentTab, snapshot(&triples)));
    assert_eq!(state.take_focus_request(), Some(FocusRequest::Tab(0, 0, 1)));
    assert!(!state.act(&Dock::Be, snapshot(&triples)));
}

#[test]
fn unique_tab_names() {
    let mut state = TabState::new();
    let first = state.new_name();
    let second = state.new_name();
    assert_ne!(first, second);
    let more = state.new_names(3);
    assert_eq!(more.len(), 3);
    for name in &more {
        assert_ne!(name, &first);
        assert_ne!(name, &second);
    }
    assert_ne!(more[0], more[1]);
    assert_ne!(more[0], more[2]);
    assert_ne!(more[1], more[2]);
}

#[test]
fn focus_tree_wraps() {
    // A window with one node of two leaves: selection wraps over the
    // leaves and the pending request is the leaf's widget id.
    let mut tree = Tree::new();
    let window = tree.window();
    let node = tree.node();
    let first = tree.leaf(100);
    let second = tree.leaf(200);
    tree.with_leaf(node, first);
    tree.with_leaf(node, second);
    tree.with_window(node, window);

    tree.select_current();
    assert_eq!(tree.selected(), Some(100));
    tree.select_next();
    assert_eq!(tree.selected(), Some(200));
    tree.select_next();
    assert_eq!(tree.selected(), Some(100));
    tree.select_previous();
    assert_eq!(tree.selected(), Some(200));
    tree.clear_selected();
    assert_eq!(tree.selected(), None);
}

#[test]
fn focus_tree_empty_is_harmless() {
    // Motions over an empty tree fail without effect and never panic.
    let mut tree = Tree::new();
    assert_eq!(tree.next_window(), None);
    assert_eq!(tree.previous_window(), None);
    assert_eq!(tree.next_node(), None);
    assert_eq!(tree.next_leaf(), None);
    assert_eq!(tree.current_leaf(), None);
    tree.select_current();
    assert_eq!(tree.selected(), None);
}

#[test]
fn focus_tree_singleton_window() {
    let mut tree = Tree::new();
    let _window = tree.window();
    let before = tree.current_window();
    assert_eq!(tree.next_window(), before);
    assert_eq!(tree.previous_window(), before);
}

#[test]
fn cascade_with_real_dock() {
    // The same engine against a real dock hierarchy: a main surface
    // split in two nodes plus a detached window surface.
    let mut tree = egui_dock::DockState::new(vec!["t0".to_string(), "t1".to_string()]);
    let _ = tree.main_surface_mut().split_below(
        egui_dock::NodeIndex::root(),
        0.5,
        vec!["t2".to_string()],
    );
    let _ = tree.add_window(vec!["t3".to_string()]);

    let derive = |tree: &egui_dock::DockState<String>| {
        let mut records = Vec::new();
        for (path, _) in tree.iter_all_tabs() {
            records.push(Record::new(path.surface.0, path.node.0, path.tab.0));
        }
        Records::new(records)
    };

    let mut state = TabState::from_records(derive(&tree));
    assert_eq!(state.surface_index, Some(0));
    let out = state.next_surface(derive(&tree));
    assert!(matches!(out, NavOutcome::Moved));
    // The cursor lands on the window surface and cascades to a valid
    // node and tab inside it.
    assert_eq!(state.surface_index, Some(1));
    assert!(state.node_index.is_some());
    assert!(state.tab_index.is_some());
    assert!(state.take_focus_request().is_some());
}

#[test]
fn projections_are_distinct() {
    // A snapshot whose equal ids are not adjacent (real two-surface
    // sessions interleave node ids) still projects each id once.
    let snap = snapshot(&[(0, 0, 0), (1, 1, 1), (0, 2, 2)]);
    assert_eq!(snap.surfaces(), vec![0, 1]);
    let snap = snapshot(&[(0, 0, 0), (1, 0, 1), (0, 1, 2)]);
    assert_eq!(snap.nodes(), vec![0, 1]);
    assert_eq!(snap.tabs(), vec![0, 1, 2]);
}

#[test]
fn surface_wrap_invariant() {
    // The positional surface cursor also wraps: advancing as many times
    // as there are surfaces returns to the start, and retreating undoes
    // advancing.
    let triples = [(0, 0, 0), (1, 1, 1), (2, 2, 2)];
    let mut state = TabState::from_records(snapshot(&triples));
    assert_eq!(state.surface, 0);
    for _ in 0..3 {
        let out = state.increment_surface();
        assert!(matches!(out, NavOutcome::Moved));
    }
    assert_eq!(state.surface, 0);
    let _ = state.increment_surface();
    let _ = state.decrement_surface();
    assert_eq!(state.surface, 0);
}
