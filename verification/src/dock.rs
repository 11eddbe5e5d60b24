//! The hierarchy snapshot and the three-level cursor engine.
//!
//! A [`Records`] value is a snapshot of the live dock hierarchy: one
//! [`Record`] per tab, always re-derived whole from the authoritative
//! hierarchy, never patched in place.  The [`TabState`] engine keeps
//! three cursors, one per level (surface, node, tab), each indexing into
//! a filtered, deduplicated projection of the snapshot.  Every navigation
//! call takes a fresh snapshot, because the user can restructure the
//! hierarchy at any time: a cursor is treated as possibly stale and is
//! revalidated against the freshly derived lists, snapping to the first
//! valid element when it no longer points anywhere.

use crate::cursor::{
    distinct, next_in, next_pos, pos_outcome, prev_in, prev_pos, step_outcome, NavOutcome,
};
use vstd::prelude::*;

verus! {

/// One live tab in the dock hierarchy, identified by its surface, node
/// and tab positions.
#[derive(Debug, Copy, Clone, PartialEq, Eq, Structural)]
pub struct Record {
    /// The window area holding panels and tabs.
    pub surface_index: usize,
    /// The panel within the surface.
    pub node_index: usize,
    /// The tab within the node.
    pub tab_index: usize,
}

impl Record {
    /// A record from its three position ids.
    pub fn new(surface_index: usize, node_index: usize, tab_index: usize) -> (r: Self)
        ensures
            r == (Record { surface_index, node_index, tab_index }),
    {
        Record { surface_index, node_index, tab_index }
    }
}

/// The ids among the first `j`, each at its first appearance only.
pub open spec fn distinct_upto(s: Seq<usize>, j: int) -> Seq<usize>
    decreases j,
{
    if j <= 0 {
        Seq::empty()
    } else {
        distinct_upto(s, j - 1) + if s.subrange(0, j - 1).contains(s[j - 1]) {
            Seq::empty()
        } else {
            seq![s[j - 1]]
        }
    }
}

/// Every repeat removed: each id once, at its first appearance, in order.
pub open spec fn unique_ids(s: Seq<usize>) -> Seq<usize> {
    distinct_upto(s, s.len() as int)
}

/// The duplicate-free projection holds exactly the ids of the prefix it
/// covers, each once, and is never longer than it.
pub proof fn lemma_distinct_upto(s: Seq<usize>, j: int)
    requires
        0 <= j <= s.len(),
    ensures
        distinct_upto(s, j).len() <= j,
        forall|v: usize|
            #[trigger] distinct_upto(s, j).contains(v) <==> s.subrange(0, j).contains(v),
        distinct(distinct_upto(s, j)),
    decreases j,
{
    if j > 0 {
        lemma_distinct_upto(s, j - 1);
        let prev = distinct_upto(s, j - 1);
        let curp = distinct_upto(s, j);
        let x = s[j - 1];
        assert(s.subrange(0, j - 1) =~= s.subrange(0, j).drop_last());
        assert forall|v: usize| s.subrange(0, j - 1).contains(v) implies s.subrange(
            0,
            j,
        ).contains(v) by {
            let k = choose|k: int| 0 <= k < j - 1 && (#[trigger] s.subrange(0, j - 1)[k]) == v;
            assert(s.subrange(0, j)[k] == v);
        }
        assert(s.subrange(0, j)[j - 1] == x);
        assert(s.subrange(0, j).contains(x));
        if s.subrange(0, j - 1).contains(x) {
            assert(curp =~= prev);
            assert forall|v: usize| s.subrange(0, j).contains(v) implies curp.contains(v) by {
                let k = choose|k: int| 0 <= k < j && (#[trigger] s.subrange(0, j)[k]) == v;
                if k < j - 1 {
                    assert(s.subrange(0, j - 1)[k] == v);
                }
            }
        } else {
            assert(curp =~= prev.push(x));
            assert(curp.contains(x)) by {
                assert(curp[curp.len() - 1] == x);
            }
            assert forall|v: usize| #[trigger] curp.contains(v) implies s.subrange(
                0,
                j,
            ).contains(v) by {
                let k = choose|k: int| 0 <= k < curp.len() && (#[trigger] curp[k]) == v;
                if k < prev.len() {
                    assert(prev[k] == v);
                    assert(prev.contains(v));
                }
            }
            assert forall|v: usize| s.subrange(0, j).contains(v) implies curp.contains(v) by {
                let k = choose|k: int| 0 <= k < j && (#[trigger] s.subrange(0, j)[k]) == v;
                if k < j - 1 {
                    assert(s.subrange(0, j - 1)[k] == v);
                    assert(prev.contains(v));
                    let q = choose|q: int| 0 <= q < prev.len() && (#[trigger] prev[q]) == v;
                    assert(curp[q] == v);
                } else {
                    assert(curp[curp.len() - 1] == v);
                }
            }
            assert forall|k1: int, k2: int|
                0 <= k1 < k2 < curp.len() implies curp[k1] != curp[k2] by {
                if k2 < prev.len() {
                    assert(curp[k1] == prev[k1] && curp[k2] == prev[k2]);
                } else {
                    assert(curp[k2] == x);
                    assert(curp[k1] == prev[k1]);
                    assert(prev.contains(prev[k1]));
                }
            }
        }
    }
}

/// Remove repeated ids, keeping each id's first appearance.
fn dedup_ids(ids: &Vec<usize>) -> (r: Vec<usize>)
    ensures
        r@ == unique_ids(ids@),
{
    let mut out: Vec<usize> = Vec::new();
    let mut i: usize = 0;
    while i < ids.len()
        invariant
            i <= ids@.len(),
            out@ == distinct_upto(ids@, i as int),
        decreases ids@.len() - i,
    {
        proof {
            lemma_distinct_upto(ids@, i as int);
        }
        let v = ids[i];
        let seen = crate::cursor::ids_contain(&out, v);
        proof {
            assert(ids@.subrange(0, i as int).contains(ids@[i as int]) == seen);
        }
        if !seen {
            out.push(v);
            proof {
                assert(out@ =~= distinct_upto(ids@, i as int) + seq![ids@[i as int]]);
            }
        } else {
            proof {
                assert(out@ =~= distinct_upto(ids@, i as int) + Seq::<usize>::empty());
            }
        }
        i += 1;
    }
    out
}

/// The surface ids of the records, in order.
pub open spec fn map_surfaces(rs: Seq<Record>) -> Seq<usize> {
    rs.map_values(|r: Record| r.surface_index)
}

/// The node ids of the records, in order.
pub open spec fn map_nodes(rs: Seq<Record>) -> Seq<usize> {
    rs.map_values(|r: Record| r.node_index)
}

/// The tab ids of the records, in order.
pub open spec fn map_tabs(rs: Seq<Record>) -> Seq<usize> {
    rs.map_values(|r: Record| r.tab_index)
}

/// The distinct surfaces of a snapshot, in first-appearance order.
pub open spec fn surfaces_view(rs: Seq<Record>) -> Seq<usize> {
    unique_ids(map_surfaces(rs))
}

/// The distinct nodes of a snapshot, in first-appearance order.
pub open spec fn nodes_view(rs: Seq<Record>) -> Seq<usize> {
    unique_ids(map_nodes(rs))
}

/// The distinct tabs of a snapshot, in first-appearance order.
pub open spec fn tabs_view(rs: Seq<Record>) -> Seq<usize> {
    unique_ids(map_tabs(rs))
}

/// The records among the first `j` whose surface is `surface`.
pub open spec fn filter_surface_upto(rs: Seq<Record>, surface: usize, j: int) -> Seq<Record>
    decreases j,
{
    if j <= 0 {
        Seq::empty()
    } else {
        filter_surface_upto(rs, surface, j - 1) + if rs[j - 1].surface_index == surface {
            seq![rs[j - 1]]
        } else {
            Seq::empty()
        }
    }
}

/// The subset of a snapshot on one surface, in order.
pub open spec fn filter_surface_view(rs: Seq<Record>, surface: usize) -> Seq<Record> {
    filter_surface_upto(rs, surface, rs.len() as int)
}

/// The records among the first `j` whose node is `node`.
pub open spec fn filter_node_upto(rs: Seq<Record>, node: usize, j: int) -> Seq<Record>
    decreases j,
{
    if j <= 0 {
        Seq::empty()
    } else {
        filter_node_upto(rs, node, j - 1) + if rs[j - 1].node_index == node {
            seq![rs[j - 1]]
        } else {
            Seq::empty()
        }
    }
}

/// The subset of a snapshot in one node, in order.
pub open spec fn filter_node_view(rs: Seq<Record>, node: usize) -> Seq<Record> {
    filter_node_upto(rs, node, rs.len() as int)
}

/// The records among the first `j` whose tab is `tab`.
pub open spec fn filter_tab_upto(rs: Seq<Record>, tab: usize, j: int) -> Seq<Record>
    decreases j,
{
    if j <= 0 {
        Seq::empty()
    } else {
        filter_tab_upto(rs, tab, j - 1) + if rs[j - 1].tab_index == tab {
            seq![rs[j - 1]]
        } else {
            Seq::empty()
        }
    }
}

/// The subset of a snapshot on one tab id, in order.
pub open spec fn filter_tab_view(rs: Seq<Record>, tab: usize) -> Seq<Record> {
    filter_tab_upto(rs, tab, rs.len() as int)
}

/// The positions, among the first `j` of `all`, holding a value that the
/// `allowed` list contains.
pub open spec fn positions_upto(all: Seq<usize>, allowed: Seq<usize>, j: int) -> Seq<usize>
    decreases j,
{
    if j <= 0 {
        Seq::empty()
    } else {
        positions_upto(all, allowed, j - 1) + if allowed.contains(all[j - 1]) {
            seq![((j - 1) as usize)]
        } else {
            Seq::empty()
        }
    }
}

/// The filtered node id list for a surface: the positions in the global
/// node list whose node also appears within the surface.  Cursor motion
/// at the node level steps through this list.
pub open spec fn node_ids_view(rs: Seq<Record>, surface: usize) -> Seq<usize> {
    positions_upto(
        nodes_view(rs),
        nodes_view(filter_surface_view(rs, surface)),
        nodes_view(rs).len() as int,
    )
}

/// The filtered tab id list for a node: the positions in the global tab
/// list whose tab also appears within the node.
pub open spec fn tab_ids_view(rs: Seq<Record>, node: usize) -> Seq<usize> {
    positions_upto(
        tabs_view(rs),
        tabs_view(filter_node_view(rs, node)),
        tabs_view(rs).len() as int,
    )
}

/// A position list is strictly increasing, bounded by the length of the
/// list it indexes, and therefore free of duplicates.
pub proof fn lemma_positions_bounds(all: Seq<usize>, allowed: Seq<usize>, j: int)
    requires
        0 <= j <= usize::MAX,
    ensures
        forall|k: int|
            0 <= k < positions_upto(all, allowed, j).len() ==> (#[trigger] positions_upto(
                all,
                allowed,
                j,
            )[k]) < j,
        forall|k1: int, k2: int|
            0 <= k1 < k2 < positions_upto(all, allowed, j).len() ==> positions_upto(
                all,
                allowed,
                j,
            )[k1] < positions_upto(all, allowed, j)[k2],
        distinct(positions_upto(all, allowed, j)),
    decreases j,
{
    let curp = positions_upto(all, allowed, j);
    if j > 0 {
        lemma_positions_bounds(all, allowed, j - 1);
        let prev = positions_upto(all, allowed, j - 1);
        if allowed.contains(all[j - 1]) {
            assert(curp =~= prev.push((j - 1) as usize));
            assert forall|k: int| 0 <= k < curp.len() implies (#[trigger] curp[k]) < j by {
                if k < prev.len() {
                    assert(curp[k] == prev[k]);
                } else {
                    assert(curp[k] == (j - 1) as usize);
                }
            }
            assert forall|k1: int, k2: int| 0 <= k1 < k2 < curp.len() implies curp[k1]
                < curp[k2] by {
                if k2 < prev.len() {
                    assert(curp[k1] == prev[k1] && curp[k2] == prev[k2]);
                } else {
                    assert(curp[k2] == (j - 1) as usize);
                    assert(curp[k1] == prev[k1] && prev[k1] < j - 1);
                }
            }
        } else {
            assert(curp =~= prev);
        }
    }
    assert forall|k1: int, k2: int| 0 <= k1 < k2 < curp.len() implies curp[k1] != curp[k2] by {
        assert(curp[k1] < curp[k2]);
    }
}

/// The surface list of a bounded snapshot is duplicate-free, so the
/// wrap laws of the cursor module apply to the surface cursor.
pub proof fn lemma_surfaces_distinct(rs: Seq<Record>)
    requires
        rs.len() <= usize::MAX,
    ensures
        distinct(surfaces_view(rs)),
{
    lemma_distinct_upto(map_surfaces(rs), map_surfaces(rs).len() as int);
}

/// The filtered node id list of a bounded snapshot is duplicate-free, so
/// the wrap laws of the cursor module apply to it.
pub proof fn lemma_node_ids_distinct(rs: Seq<Record>, surface: usize)
    requires
        rs.len() <= usize::MAX,
    ensures
        distinct(node_ids_view(rs, surface)),
{
    lemma_distinct_upto(map_nodes(rs), map_nodes(rs).len() as int);
    lemma_positions_bounds(
        nodes_view(rs),
        nodes_view(filter_surface_view(rs, surface)),
        nodes_view(rs).len() as int,
    );
}

/// The filtered tab id list of a bounded snapshot is duplicate-free.
pub proof fn lemma_tab_ids_distinct(rs: Seq<Record>, node: usize)
    requires
        rs.len() <= usize::MAX,
    ensures
        distinct(tab_ids_view(rs, node)),
{
    lemma_distinct_upto(map_tabs(rs), map_tabs(rs).len() as int);
    lemma_positions_bounds(
        tabs_view(rs),
        tabs_view(filter_node_view(rs, node)),
        tabs_view(rs).len() as int,
    );
}

/// A snapshot of the dock hierarchy: one record per live tab, in the
/// order the hierarchy yields them.
#[derive(Debug, PartialEq, Eq)]
pub struct Records(pub Vec<Record>);

impl Clone for Records {
    fn clone(&self) -> (r: Self)
        ensures
            r.0@ == self.0@,
    {
        let mut out: Vec<Record> = Vec::new();
        let mut i: usize = 0;
        while i < self.0.len()
            invariant
                i <= self.0@.len(),
                out@ == self.0@.take(i as int),
            decreases self.0@.len() - i,
        {
            out.push(self.0[i]);
            proof {
                assert(out@ =~= self.0@.take(i + 1));
            }
            i += 1;
        }
        proof {
            assert(self.0@.take(self.0@.len() as int) =~= self.0@);
        }
        Records(out)
    }
}

impl Records {
    /// A snapshot from its records.
    pub fn new(records: Vec<Record>) -> (r: Self)
        ensures
            r.0@ == records@,
    {
        Records(records)
    }

    /// The distinct surfaces of the snapshot, in first-appearance order.
    pub fn surfaces(&self) -> (r: Vec<usize>)
        ensures
            r@ == surfaces_view(self.0@),
    {
        let mut ids: Vec<usize> = Vec::new();
        let mut i: usize = 0;
        while i < self.0.len()
            invariant
                i <= self.0@.len(),
                ids@ == map_surfaces(self.0@.take(i as int)),
            decreases self.0@.len() - i,
        {
            ids.push(self.0[i].surface_index);
            proof {
                assert(map_surfaces(self.0@.take(i + 1)) =~= map_surfaces(
                    self.0@.take(i as int),
                ).push(self.0@[i as int].surface_index));
            }
            i += 1;
        }
        proof {
            assert(self.0@.take(self.0@.len() as int) =~= self.0@);
        }
        dedup_ids(&ids)
    }

    /// The distinct nodes of the snapshot, in first-appearance order.
    pub fn nodes(&self) -> (r: Vec<usize>)
        ensures
            r@ == nodes_view(self.0@),
    {
        let mut ids: Vec<usize> = Vec::new();
        let mut i: usize = 0;
        while i < self.0.len()
            invariant
                i <= self.0@.len(),
                ids@ == map_nodes(self.0@.take(i as int)),
            decreases self.0@.len() - i,
        {
            ids.push(self.0[i].node_index);
            proof {
                assert(map_nodes(self.0@.take(i + 1)) =~= map_nodes(self.0@.take(i as int)).push(
                    self.0@[i as int].node_index,
                ));
            }
            i += 1;
        }
        proof {
            assert(self.0@.take(self.0@.len() as int) =~= self.0@);
        }
        dedup_ids(&ids)
    }

    /// The distinct tabs of the snapshot, in first-appearance order.
    pub fn tabs(&self) -> (r: Vec<usize>)
        ensures
            r@ == tabs_view(self.0@),
    {
        let mut ids: Vec<usize> = Vec::new();
        let mut i: usize = 0;
        while i < self.0.len()
            invariant
                i <= self.0@.len(),
                ids@ == map_tabs(self.0@.take(i as int)),
            decreases self.0@.len() - i,
        {
            ids.push(self.0[i].tab_index);
            proof {
                assert(map_tabs(self.0@.take(i + 1)) =~= map_tabs(self.0@.take(i as int)).push(
                    self.0@[i as int].tab_index,
                ));
            }
            i += 1;
        }
        proof {
            assert(self.0@.take(self.0@.len() as int) =~= self.0@);
        }
        dedup_ids(&ids)
    }

    /// The subset of the snapshot on one surface.
    pub fn filter_surface(self, surface: usize) -> (r: Self)
        ensures
            r.0@ == filter_surface_view(self.0@, surface),
    {
        let mut out: Vec<Record> = Vec::new();
        let mut i: usize = 0;
        while i < self.0.len()
            invariant
                i <= self.0@.len(),
                out@ == filter_surface_upto(self.0@, surface, i as int),
            decreases self.0@.len() - i,
        {
            let rec = self.0[i];
            if rec.surface_index == surface {
                out.push(rec);
                proof {
                    assert(out@ =~= filter_surface_upto(self.0@, surface, i as int) + seq![
                        self.0@[i as int],
                    ]);
                }
            } else {
                proof {
                    assert(out@ =~= filter_surface_upto(self.0@, surface, i as int)
                        + Seq::<Record>::empty());
                }
            }
            i += 1;
        }
        Records(out)
    }

    /// The subset of the snapshot in one node.
    pub fn filter_node(self, node: usize) -> (r: Self)
        ensures
            r.0@ == filter_node_view(self.0@, node),
    {
        let mut out: Vec<Record> = Vec::new();
        let mut i: usize = 0;
        while i < self.0.len()
            invariant
                i <= self.0@.len(),
                out@ == filter_node_upto(self.0@, node, i as int),
            decreases self.0@.len() - i,
        {
            let rec = self.0[i];
            if rec.node_index == node {
                out.push(rec);
                proof {
                    assert(out@ =~= filter_node_upto(self.0@, node, i as int) + seq![
                        self.0@[i as int],
                    ]);
                }
            } else {
                proof {
                    assert(out@ =~= filter_node_upto(self.0@, node, i as int)
                        + Seq::<Record>::empty());
                }
            }
            i += 1;
        }
        Records(out)
    }

    /// The subset of the snapshot on one tab id.
    pub fn filter_tab(self, tab: usize) -> (r: Self)
        ensures
            r.0@ == filter_tab_view(self.0@, tab),
    {
        let mut out: Vec<Record> = Vec::new();
        let mut i: usize = 0;
        while i < self.0.len()
            invariant
                i <= self.0@.len(),
                out@ == filter_tab_upto(self.0@, tab, i as int),
            decreases self.0@.len() - i,
        {
            let rec = self.0[i];
            if rec.tab_index == tab {
                out.push(rec);
                proof {
                    assert(out@ =~= filter_tab_upto(self.0@, tab, i as int) + seq![
                        self.0@[i as int],
                    ]);
                }
            } else {
                proof {
                    assert(out@ =~= filter_tab_upto(self.0@, tab, i as int)
                        + Seq::<Record>::empty());
                }
            }
            i += 1;
        }
        Records(out)
    }

    /// The filtered node id list for a surface: positions in the global
    /// node list valid within that surface.
    pub fn node_ids(&self, surface: usize) -> (r: Vec<usize>)
        ensures
            r@ == node_ids_view(self.0@, surface),
    {
        let in_surface = self.clone().filter_surface(surface).nodes();
        let all = self.nodes();
        let mut out: Vec<usize> = Vec::new();
        let mut i: usize = 0;
        while i < all.len()
            invariant
                i <= all@.len(),
                all@ == nodes_view(self.0@),
                in_surface@ == nodes_view(filter_surface_view(self.0@, surface)),
                out@ == positions_upto(all@, in_surface@, i as int),
            decreases all@.len() - i,
        {
            if crate::cursor::ids_contain(&in_surface, all[i]) {
                out.push(i);
                proof {
                    assert(out@ =~= positions_upto(all@, in_surface@, i as int) + seq![i as usize]);
                }
            } else {
                proof {
                    assert(out@ =~= positions_upto(all@, in_surface@, i as int)
                        + Seq::<usize>::empty());
                }
            }
            i += 1;
        }
        out
    }

    /// Whether the snapshot holds no tab at all.
    pub fn is_empty(&self) -> (r: bool)
        ensures
            r == (self.0@.len() == 0),
    {
        self.0.len() == 0
    }

    /// The filtered tab id list for a node: positions in the global tab
    /// list valid within that node.
    pub fn tab_ids(&self, node: usize) -> (r: Vec<usize>)
        ensures
            r@ == tab_ids_view(self.0@, node),
    {
        let in_node = self.clone().filter_node(node).tabs();
        let all = self.tabs();
        let mut out: Vec<usize> = Vec::new();
        let mut i: usize = 0;
        while i < all.len()
            invariant
                i <= all@.len(),
                all@ == tabs_view(self.0@),
                in_node@ == tabs_view(filter_node_view(self.0@, node)),
                out@ == positions_upto(all@, in_node@, i as int),
            decreases all@.len() - i,
        {
            if crate::cursor::ids_contain(&in_node, all[i]) {
                out.push(i);
                proof {
                    assert(out@ =~= positions_upto(all@, in_node@, i as int) + seq![i as usize]);
                }
            } else {
                proof {
                    assert(out@ =~= positions_upto(all@, in_node@, i as int)
                        + Seq::<usize>::empty());
                }
            }
            i += 1;
        }
        out
    }
}

} // verus!

verus! {

/// A pending focus change, handed to the presentation layer and cleared
/// once read: a one-shot signal, never a direct call into the widget
/// toolkit.
#[derive(Debug, Copy, Clone, PartialEq, Eq, Structural)]
pub enum FocusRequest {
    /// Focus the node on the surface.
    Node(usize, usize),
    /// Focus the tab, after focusing its node on its surface.
    Tab(usize, usize, usize),
}

/// Mathematical state of the cursor engine.
#[verifier::ext_equal]
pub ghost struct TabView {
    /// The snapshot the cursors were last validated against.
    pub records: Seq<Record>,
    /// Distinct surfaces of the snapshot.
    pub surfaces: Seq<usize>,
    /// Distinct nodes of the snapshot.
    pub nodes: Seq<usize>,
    /// Distinct tabs of the snapshot.
    pub tabs: Seq<usize>,
    /// The active surface id, when resolved.
    pub surface_index: Option<usize>,
    /// The active node id, when resolved.
    pub node_index: Option<usize>,
    /// The active tab id, when resolved.
    pub tab_index: Option<usize>,
    /// Cursor position into the surface list.
    pub surface: usize,
    /// Cursor value over the filtered node id list.
    pub node: usize,
    /// Cursor value over the filtered tab id list.
    pub tab: usize,
    /// Names issued to tabs so far.
    pub tab_names: Seq<String>,
    /// The pending one-shot focus change, if any.
    pub focus_request: Option<FocusRequest>,
    /// Identifier source for tab titles.
    pub identifier: crate::identifier::Identifier,
    /// Observability preferences.
    pub config: crate::observer::Config,
}

/// A fresh snapshot replaces the stored one, and the three id lists are
/// re-derived whole; cursors are left for the update steps to validate.
pub open spec fn spec_refresh(v: TabView, rs: Seq<Record>) -> TabView {
    TabView {
        records: rs,
        surfaces: surfaces_view(rs),
        nodes: nodes_view(rs),
        tabs: tabs_view(rs),
        ..v
    }
}

/// Advance the surface cursor with wrap-around.
pub open spec fn spec_increment_surface(v: TabView) -> (TabView, NavOutcome) {
    (
        TabView { surface: next_pos(v.surfaces.len(), v.surface as nat) as usize, ..v },
        pos_outcome(v.surfaces.len(), v.surface as nat),
    )
}

/// Retreat the surface cursor with wrap-around.
pub open spec fn spec_decrement_surface(v: TabView) -> (TabView, NavOutcome) {
    (
        TabView { surface: prev_pos(v.surfaces.len(), v.surface as nat) as usize, ..v },
        crate::cursor::prev_pos_outcome(v.surfaces.len(), v.surface as nat),
    )
}

/// Resolve the surface cursor to a surface id, when in bounds.
pub open spec fn spec_update_active_surface(v: TabView) -> (TabView, bool) {
    if v.surface < v.surfaces.len() {
        (TabView { surface_index: Some(v.surfaces[v.surface as int]), ..v }, true)
    } else {
        (v, false)
    }
}

/// Advance the node cursor over the id list filtered by the active
/// surface; fails without effect when no surface is active.
pub open spec fn spec_increment_node(v: TabView) -> (TabView, NavOutcome) {
    match v.surface_index {
        Some(surface) => {
            let ids = node_ids_view(v.records, surface);
            (TabView { node: next_in(ids, v.node), ..v }, step_outcome(ids, v.node))
        },
        None => (v, NavOutcome::Empty),
    }
}

/// Retreat the node cursor over the id list filtered by the active
/// surface.
pub open spec fn spec_decrement_node(v: TabView) -> (TabView, NavOutcome) {
    match v.surface_index {
        Some(surface) => {
            let ids = node_ids_view(v.records, surface);
            (TabView { node: prev_in(ids, v.node), ..v }, step_outcome(ids, v.node))
        },
        None => (v, NavOutcome::Empty),
    }
}

/// Advance the tab cursor over the id list filtered by the active node.
pub open spec fn spec_increment_tab(v: TabView) -> (TabView, NavOutcome) {
    match v.node_index {
        Some(node) => {
            let ids = tab_ids_view(v.records, node);
            (TabView { tab: next_in(ids, v.tab), ..v }, step_outcome(ids, v.tab))
        },
        None => (v, NavOutcome::Empty),
    }
}

/// Retreat the tab cursor over the id list filtered by the active node.
pub open spec fn spec_decrement_tab(v: TabView) -> (TabView, NavOutcome) {
    match v.node_index {
        Some(node) => {
            let ids = tab_ids_view(v.records, node);
            (TabView { tab: prev_in(ids, v.tab), ..v }, step_outcome(ids, v.tab))
        },
        None => (v, NavOutcome::Empty),
    }
}

/// Request focus for the active node on the active surface; a missing
/// level is a local failure with no effect.
pub open spec fn spec_select_node(v: TabView) -> (TabView, bool) {
    if v.surface_index is Some && v.node_index is Some {
        (
            TabView {
                focus_request: Some(
                    FocusRequest::Node(v.surface_index->Some_0, v.node_index->Some_0),
                ),
                ..v
            },
            true,
        )
    } else {
        (v, false)
    }
}

/// Request focus for the active tab; any missing level is a local
/// failure with no effect, never a crash.
pub open spec fn spec_select_current_tab(v: TabView) -> (TabView, bool) {
    if v.surface_index is Some && v.node_index is Some && v.tab_index is Some {
        (
            TabView {
                focus_request: Some(
                    FocusRequest::Tab(
                        v.surface_index->Some_0,
                        v.node_index->Some_0,
                        v.tab_index->Some_0,
                    ),
                ),
                ..v
            },
            true,
        )
    } else {
        (v, false)
    }
}

/// Re-resolve the node cursor to a node id: the cursor's own position
/// when the filtered list still holds it, else the first id of the list
/// (the repair path), reported as success either way; failure only when
/// no surface is active or the surface holds no nodes.  Repair moves the
/// active id only: the stored cursor integer keeps its stale value and
/// self-heals on the next motion, which also snaps to a valid id.
pub open spec fn spec_update_active_node(v: TabView) -> (TabView, bool) {
    match v.surface_index {
        Some(surface) => {
            let ids = node_ids_view(v.records, surface);
            let nodes = nodes_view(v.records);
            if ids.len() == 0 {
                (v, false)
            } else if ids.contains(v.node) {
                (TabView { node_index: Some(nodes[v.node as int]), ..v }, true)
            } else {
                (TabView { node_index: Some(nodes[ids[0] as int]), ..v }, true)
            }
        },
        None => (v, false),
    }
}

/// Re-resolve the tab cursor to a tab id, with the same repair rule as
/// the node level, the stale cursor integer likewise left to self-heal;
/// on success the newly active tab is selected.
pub open spec fn spec_update_active_tab(v: TabView) -> (TabView, bool) {
    match v.node_index {
        Some(node) => {
            let ids = tab_ids_view(v.records, node);
            let tabs = tabs_view(v.records);
            if ids.len() == 0 {
                (v, false)
            } else {
                let v2 = if ids.contains(v.tab) {
                    TabView { tab_index: Some(tabs[v.tab as int]), ..v }
                } else {
                    TabView { tab_index: Some(tabs[ids[0] as int]), ..v }
                };
                (spec_select_current_tab(v2).0, true)
            }
        },
        None => (v, false),
    }
}

/// The whole next-surface operation: refresh, advance, resolve the
/// surface, then cascade best-effort re-resolution down to node and tab.
pub open spec fn spec_next_surface(v0: TabView, rs: Seq<Record>) -> (TabView, NavOutcome) {
    let v = spec_refresh(v0, rs);
    let (v1, out) = spec_increment_surface(v);
    if out != NavOutcome::Moved {
        (v1, out)
    } else {
        let (v2, ok) = spec_update_active_surface(v1);
        if !ok {
            (v2, NavOutcome::Empty)
        } else {
            let (v3, nok) = spec_update_active_node(v2);
            if nok {
                (spec_update_active_tab(v3).0, NavOutcome::Moved)
            } else {
                (v3, NavOutcome::Moved)
            }
        }
    }
}

/// The whole previous-surface operation.
pub open spec fn spec_previous_surface(v0: TabView, rs: Seq<Record>) -> (TabView, NavOutcome) {
    let v = spec_refresh(v0, rs);
    let (v1, out) = spec_decrement_surface(v);
    if out != NavOutcome::Moved {
        (v1, out)
    } else {
        let (v2, ok) = spec_update_active_surface(v1);
        if !ok {
            (v2, NavOutcome::Empty)
        } else {
            let (v3, nok) = spec_update_active_node(v2);
            if nok {
                (spec_update_active_tab(v3).0, NavOutcome::Moved)
            } else {
                (v3, NavOutcome::Moved)
            }
        }
    }
}

/// The whole next-node operation: refresh, advance, re-resolve the node,
/// then cascade best-effort to the tab level.
pub open spec fn spec_next_node(v0: TabView, rs: Seq<Record>) -> (TabView, NavOutcome) {
    let v = spec_refresh(v0, rs);
    let (v1, out) = spec_increment_node(v);
    if out != NavOutcome::Moved {
        (v1, out)
    } else {
        let (v2, ok) = spec_update_active_node(v1);
        if !ok {
            (v2, NavOutcome::Empty)
        } else {
            (spec_update_active_tab(v2).0, NavOutcome::Moved)
        }
    }
}

/// The whole previous-node operation.
pub open spec fn spec_previous_node(v0: TabView, rs: Seq<Record>) -> (TabView, NavOutcome) {
    let v = spec_refresh(v0, rs);
    let (v1, out) = spec_decrement_node(v);
    if out != NavOutcome::Moved {
        (v1, out)
    } else {
        let (v2, ok) = spec_update_active_node(v1);
        if !ok {
            (v2, NavOutcome::Empty)
        } else {
            (spec_update_active_tab(v2).0, NavOutcome::Moved)
        }
    }
}

/// The whole next-tab operation: refresh, advance, re-resolve the tab.
pub open spec fn spec_next_tab(v0: TabView, rs: Seq<Record>) -> (TabView, NavOutcome) {
    let v = spec_refresh(v0, rs);
    let (v1, out) = spec_increment_tab(v);
    if out != NavOutcome::Moved {
        (v1, out)
    } else {
        let (v2, ok) = spec_update_active_tab(v1);
        if ok {
            (v2, NavOutcome::Moved)
        } else {
            (v2, NavOutcome::Empty)
        }
    }
}

/// The whole previous-tab operation.
pub open spec fn spec_previous_tab(v0: TabView, rs: Seq<Record>) -> (TabView, NavOutcome) {
    let v = spec_refresh(v0, rs);
    let (v1, out) = spec_decrement_tab(v);
    if out != NavOutcome::Moved {
        (v1, out)
    } else {
        let (v2, ok) = spec_update_active_tab(v1);
        if ok {
            (v2, NavOutcome::Moved)
        } else {
            (v2, NavOutcome::Empty)
        }
    }
}

/// Dispatch one dock action: the navigation actions take the fresh
/// snapshot, the selection action works on the cursors as they stand, and
/// the rest have no effect on the engine.
pub open spec fn spec_act(v: TabView, act: crate::acts::Dock, rs: Seq<Record>) -> (TabView, bool) {
    match act {
        crate::acts::Dock::CurrentTab => spec_select_current_tab(v),
        crate::acts::Dock::NextTab => {
            let (v2, out) = spec_next_tab(v, rs);
            (v2, out == NavOutcome::Moved)
        },
        crate::acts::Dock::PreviousTab => {
            let (v2, out) = spec_previous_tab(v, rs);
            (v2, out == NavOutcome::Moved)
        },
        crate::acts::Dock::NextNode => {
            let (v2, out) = spec_next_node(v, rs);
            (v2, out == NavOutcome::Moved)
        },
        crate::acts::Dock::PreviousNode => {
            let (v2, out) = spec_previous_node(v, rs);
            (v2, out == NavOutcome::Moved)
        },
        crate::acts::Dock::NextSurface => {
            let (v2, out) = spec_next_surface(v, rs);
            (v2, out == NavOutcome::Moved)
        },
        crate::acts::Dock::PreviousSurface => {
            let (v2, out) = spec_previous_surface(v, rs);
            (v2, out == NavOutcome::Moved)
        },
        crate::acts::Dock::InspectRecords => (v, false),
        crate::acts::Dock::Be => (v, false),
    }
}

/// The three-level cursor engine over the dock hierarchy.
///
/// The engine never touches the hierarchy itself: the caller derives a
/// fresh [`Records`] snapshot before every navigation call and performs
/// the pending [`FocusRequest`] afterwards, so navigation always acts on
/// a view no older than the most recent structural edit the caller knows
/// of.
pub struct TabState {
    /// Snapshot of valid surface, node and tab states.
    pub records: Records,
    /// Valid surfaces from `records`.
    pub surfaces: Vec<usize>,
    /// Valid nodes from `records`.
    pub nodes: Vec<usize>,
    /// Valid tabs from `records`.
    pub tabs: Vec<usize>,
    /// Active surface.
    pub surface_index: Option<usize>,
    /// Active node.
    pub node_index: Option<usize>,
    /// Active tab.
    pub tab_index: Option<usize>,
    /// Cursor position of the active surface.
    pub surface: usize,
    /// Cursor value of the active node.
    pub node: usize,
    /// Cursor value of the active tab.
    pub tab: usize,
    /// Unique tab names issued so far.
    pub tab_names: crate::identifier::Name,
    /// The pending one-shot focus change, if any.
    pub focus_request: Option<FocusRequest>,
    /// Identifier source for tab titles.
    pub identifier: crate::identifier::Identifier,
    /// Observability preferences.
    pub config: crate::observer::Config,
}

impl View for TabState {
    type V = TabView;

    open spec fn view(&self) -> TabView {
        TabView {
            records: self.records.0@,
            surfaces: self.surfaces@,
            nodes: self.nodes@,
            tabs: self.tabs@,
            surface_index: self.surface_index,
            node_index: self.node_index,
            tab_index: self.tab_index,
            surface: self.surface,
            node: self.node,
            tab: self.tab,
            tab_names: self.tab_names@,
            focus_request: self.focus_request,
            identifier: self.identifier,
            config: self.config,
        }
    }
}

impl TabState {
    /// An engine over a first snapshot: the cursors point at the first
    /// record when there is one, and logging and notification are on.
    pub fn from_records(records: Records) -> (r: TabState)
        ensures
            r@.records == records.0@,
            r@.surfaces == surfaces_view(records.0@),
            r@.nodes == nodes_view(records.0@),
            r@.tabs == tabs_view(records.0@),
            records.0@.len() > 0 ==> {
                &&& r@.surface_index == Some(records.0@[0].surface_index)
                &&& r@.node_index == Some(records.0@[0].node_index)
                &&& r@.tab_index == Some(records.0@[0].tab_index)
                &&& r@.surface == records.0@[0].surface_index
                &&& r@.node == records.0@[0].node_index
                &&& r@.tab == records.0@[0].tab_index
            },
            records.0@.len() == 0 ==> {
                &&& r@.surface_index is None
                &&& r@.node_index is None
                &&& r@.tab_index is None
                &&& r@.surface == 0 && r@.node == 0 && r@.tab == 0
            },
            r@.tab_names.len() == 0,
            crate::identifier::wf_names(r@.tab_names),
            r@.focus_request is None,
            r@.identifier.counter.0 == 0,
            crate::identifier::wf_names(r@.identifier.name@),
            r@.identifier.name@.len() == 0,
            r@.config == (crate::observer::Config { log: true, notify: true }),
    {
        let surfaces = records.surfaces();
        let nodes = records.nodes();
        let tabs = records.tabs();
        let mut surface_index: Option<usize> = None;
        let mut node_index: Option<usize> = None;
        let mut tab_index: Option<usize> = None;
        let mut surface: usize = 0;
        let mut node: usize = 0;
        let mut tab: usize = 0;
        if records.0.len() > 0 {
            let first = records.0[0];
            surface_index = Some(first.surface_index);
            node_index = Some(first.node_index);
            tab_index = Some(first.tab_index);
            surface = first.surface_index;
            node = first.node_index;
            tab = first.tab_index;
        }
        let config = crate::observer::Config::default().log().notify();
        TabState {
            records,
            surfaces,
            nodes,
            tabs,
            surface_index,
            node_index,
            tab_index,
            surface,
            node,
            tab,
            tab_names: crate::identifier::Name::new(),
            focus_request: None,
            identifier: Default::default(),
            config,
        }
    }

    /// An engine over an empty hierarchy.
    pub fn new() -> (r: TabState)
        ensures
            r@.records.len() == 0,
            r@.surfaces.len() == 0,
            r@.nodes.len() == 0,
            r@.tabs.len() == 0,
            r@.surface_index is None,
            r@.node_index is None,
            r@.tab_index is None,
            r@.surface == 0 && r@.node == 0 && r@.tab == 0,
            r@.tab_names.len() == 0,
            crate::identifier::wf_names(r@.tab_names),
            r@.focus_request is None,
    {
        TabState::from_records(Records::new(Vec::new()))
    }

    /// Replace the snapshot and re-derive the three id lists; the user
    /// may have restructured the hierarchy at any time, so this runs
    /// before every navigation decision.
    pub fn update_records(&mut self, records: Records)
        ensures
            final(self)@ == spec_refresh(old(self)@, records.0@),
    {
        self.surfaces = records.surfaces();
        self.nodes = records.nodes();
        self.tabs = records.tabs();
        self.records = records;
        proof {
            assert(self@ =~= spec_refresh(old(self)@, self.records.0@));
        }
    }

    /// Advance the surface cursor, wrapping past the end; a singleton
    /// list holds still, an empty one fails.
    pub fn increment_surface(&mut self) -> (r: NavOutcome)
        ensures
            final(self)@ == spec_increment_surface(old(self)@).0,
            r == spec_increment_surface(old(self)@).1,
    {
        let len = self.surfaces.len();
        let out: NavOutcome;
        if len == 0 {
            out = NavOutcome::Empty;
        } else if self.surface < len - 1 {
            self.surface = self.surface + 1;
            out = NavOutcome::Moved;
        } else if len == 1 {
            out = NavOutcome::Held;
        } else {
            self.surface = 0;
            out = NavOutcome::Moved;
        }
        proof {
            assert(self@ =~= spec_increment_surface(old(self)@).0);
        }
        out
    }

    /// Retreat the surface cursor, wrapping to the end before the start.
    pub fn decrement_surface(&mut self) -> (r: NavOutcome)
        ensures
            final(self)@ == spec_decrement_surface(old(self)@).0,
            r == spec_decrement_surface(old(self)@).1,
    {
        let len = self.surfaces.len();
        let out: NavOutcome;
        if len == 0 {
            out = NavOutcome::Empty;
        } else if len == 1 && self.surface == 0 {
            out = NavOutcome::Held;
        } else if self.surface == 0 {
            self.surface = len - 1;
            out = NavOutcome::Moved;
        } else {
            self.surface = self.surface - 1;
            out = NavOutcome::Moved;
        }
        proof {
            assert(self@ =~= spec_decrement_surface(old(self)@).0);
        }
        out
    }

    /// Resolve the surface cursor to a surface id; out of bounds is a
    /// failure with no effect.
    pub fn update_active_surface(&mut self) -> (r: bool)
        ensures
            final(self)@ == spec_update_active_surface(old(self)@).0,
            r == spec_update_active_surface(old(self)@).1,
    {
        if self.surface < self.surfaces.len() {
            self.surface_index = Some(self.surfaces[self.surface]);
            proof {
                assert(self@ =~= spec_update_active_surface(old(self)@).0);
            }
            true
        } else {
            proof {
                assert(self@ =~= spec_update_active_surface(old(self)@).0);
            }
            false
        }
    }

    /// Advance the node cursor over the ids valid in the active surface.
    pub fn increment_node(&mut self) -> (r: NavOutcome)
        ensures
            final(self)@ == spec_increment_node(old(self)@).0,
            r == spec_increment_node(old(self)@).1,
    {
        match self.surface_index {
            Some(surface) => {
                let ids = self.records.node_ids(surface);
                let (next, out) = crate::cursor::step_next(&ids, self.node);
                self.node = next;
                proof {
                    assert(self@ =~= spec_increment_node(old(self)@).0);
                }
                out
            },
            None => NavOutcome::Empty,
        }
    }

    /// Retreat the node cursor over the ids valid in the active surface.
    pub fn decrement_node(&mut self) -> (r: NavOutcome)
        ensures
            final(self)@ == spec_decrement_node(old(self)@).0,
            r == spec_decrement_node(old(self)@).1,
    {
        match self.surface_index {
            Some(surface) => {
                let ids = self.records.node_ids(surface);
                let (prev, out) = crate::cursor::step_prev(&ids, self.node);
                self.node = prev;
                proof {
                    assert(self@ =~= spec_decrement_node(old(self)@).0);
                }
                out
            },
            None => NavOutcome::Empty,
        }
    }

    /// Advance the tab cursor over the ids valid in the active node.
    pub fn increment_tab(&mut self) -> (r: NavOutcome)
        ensures
            final(self)@ == spec_increment_tab(old(self)@).0,
            r == spec_increment_tab(old(self)@).1,
    {
        match self.node_index {
            Some(node) => {
                let ids = self.records.tab_ids(node);
                let (next, out) = crate::cursor::step_next(&ids, self.tab);
                self.tab = next;
                proof {
                    assert(self@ =~= spec_increment_tab(old(self)@).0);
                }
                out
            },
            None => NavOutcome::Empty,
        }
    }

    /// Retreat the tab cursor over the ids valid in the active node.
    pub fn decrement_tab(&mut self) -> (r: NavOutcome)
        ensures
            final(self)@ == spec_decrement_tab(old(self)@).0,
            r == spec_decrement_tab(old(self)@).1,
    {
        match self.node_index {
            Some(node) => {
                let ids = self.records.tab_ids(node);
                let (prev, out) = crate::cursor::step_prev(&ids, self.tab);
                self.tab = prev;
                proof {
                    assert(self@ =~= spec_decrement_tab(old(self)@).0);
                }
                out
            },
            None => NavOutcome::Empty,
        }
    }

    /// Re-resolve the node cursor against the active surface, snapping
    /// the active id to the first valid node when the cursor is stale
    /// (the repair path, still a success); the stored cursor integer is
    /// left as it is and self-heals on the next motion.
    pub fn update_active_node(&mut self) -> (r: bool)
        ensures
            final(self)@ == spec_update_active_node(old(self)@).0,
            r == spec_update_active_node(old(self)@).1,
    {
        match self.surface_index {
            Some(surface) => {
                let ids = self.records.node_ids(surface);
                if ids.len() == 0 {
                    return false;
                }
                let nodes = self.records.nodes();
                let nodes_len = nodes.len();
                proof {
                    assert(nodes_view(self.records.0@).len() == nodes_len);
                    lemma_positions_bounds(
                        nodes_view(self.records.0@),
                        nodes_view(filter_surface_view(self.records.0@, surface)),
                        nodes_view(self.records.0@).len() as int,
                    );
                }
                if crate::cursor::ids_contain(&ids, self.node) {
                    proof {
                        let k = choose|k: int| 0 <= k < ids@.len() && ids@[k] == self.node;
                        assert(ids@[k] < nodes@.len());
                    }
                    let value = nodes[self.node];
                    self.node_index = Some(value);
                    proof {
                        assert(self@ =~= spec_update_active_node(old(self)@).0);
                    }
                    true
                } else {
                    proof {
                        assert(ids@[0] < nodes@.len());
                    }
                    let first = ids[0];
                    let value = nodes[first];
                    self.node_index = Some(value);
                    proof {
                        assert(self@ =~= spec_update_active_node(old(self)@).0);
                    }
                    true
                }
            },
            None => false,
        }
    }

    /// Re-resolve the tab cursor against the active node, snapping the
    /// active id to the first valid tab when the cursor is stale, the
    /// stored integer left to self-heal; on success the newly active tab
    /// is selected.
    pub fn update_active_tab(&mut self) -> (r: bool)
        ensures
            final(self)@ == spec_update_active_tab(old(self)@).0,
            r == spec_update_active_tab(old(self)@).1,
    {
        match self.node_index {
            Some(node) => {
                let ids = self.records.tab_ids(node);
                if ids.len() == 0 {
                    return false;
                }
                let tabs = self.records.tabs();
                let tabs_len = tabs.len();
                proof {
                    assert(tabs_view(self.records.0@).len() == tabs_len);
                    lemma_positions_bounds(
                        tabs_view(self.records.0@),
                        tabs_view(filter_node_view(self.records.0@, node)),
                        tabs_view(self.records.0@).len() as int,
                    );
                }
                if crate::cursor::ids_contain(&ids, self.tab) {
                    proof {
                        let k = choose|k: int| 0 <= k < ids@.len() && ids@[k] == self.tab;
                        assert(ids@[k] < tabs@.len());
                    }
                    let value = tabs[self.tab];
                    self.tab_index = Some(value);
                } else {
                    proof {
                        assert(ids@[0] < tabs@.len());
                    }
                    let first = ids[0];
                    let value = tabs[first];
                    self.tab_index = Some(value);
                }
                let _ = self.select_current_tab();
                proof {
                    assert(self@ =~= spec_update_active_tab(old(self)@).0);
                }
                true
            },
            None => false,
        }
    }

    /// Request focus for the active node on the active surface.
    pub fn select_node(&mut self) -> (r: bool)
        ensures
            final(self)@ == spec_select_node(old(self)@).0,
            r == spec_select_node(old(self)@).1,
    {
        match (self.surface_index, self.node_index) {
            (Some(surface), Some(node)) => {
                self.focus_request = Some(FocusRequest::Node(surface, node));
                proof {
                    assert(self@ =~= spec_select_node(old(self)@).0);
                }
                true
            },
            _ => false,
        }
    }

    /// Request focus for the active tab; a missing cursor at any level is
    /// a local failure reported to the caller, never a crash.
    pub fn select_current_tab(&mut self) -> (r: bool)
        ensures
            final(self)@ == spec_select_current_tab(old(self)@).0,
            r == spec_select_current_tab(old(self)@).1,
    {
        match (self.surface_index, self.node_index, self.tab_index) {
            (Some(surface), Some(node), Some(tab)) => {
                self.focus_request = Some(FocusRequest::Tab(surface, node, tab));
                proof {
                    assert(self@ =~= spec_select_current_tab(old(self)@).0);
                }
                true
            },
            _ => false,
        }
    }

    /// Read and clear the pending focus change: a one-shot signal for the
    /// presentation layer.
    pub fn take_focus_request(&mut self) -> (r: Option<FocusRequest>)
        ensures
            r == old(self)@.focus_request,
            final(self)@ == (TabView { focus_request: None, ..old(self)@ }),
    {
        let out = self.focus_request;
        self.focus_request = None;
        proof {
            assert(self@ =~= (TabView { focus_request: None, ..old(self)@ }));
        }
        out
    }

    /// Advance to the next surface against a fresh snapshot, cascading
    /// best-effort re-resolution to the node and tab cursors.
    pub fn next_surface(&mut self, snapshot: Records) -> (r: NavOutcome)
        ensures
            final(self)@ == spec_next_surface(old(self)@, snapshot.0@).0,
            r == spec_next_surface(old(self)@, snapshot.0@).1,
    {
        self.update_records(snapshot);
        let out = self.increment_surface();
        match out {
            NavOutcome::Moved => {},
            _ => {
                return out;
            },
        }
        if !self.update_active_surface() {
            return NavOutcome::Empty;
        }
        if self.update_active_node() {
            let _ = self.update_active_tab();
        }
        NavOutcome::Moved
    }

    /// Retreat to the previous surface against a fresh snapshot, with the
    /// same cascade.
    pub fn previous_surface(&mut self, snapshot: Records) -> (r: NavOutcome)
        ensures
            final(self)@ == spec_previous_surface(old(self)@, snapshot.0@).0,
            r == spec_previous_surface(old(self)@, snapshot.0@).1,
    {
        self.update_records(snapshot);
        let out = self.decrement_surface();
        match out {
            NavOutcome::Moved => {},
            _ => {
                return out;
            },
        }
        if !self.update_active_surface() {
            return NavOutcome::Empty;
        }
        if self.update_active_node() {
            let _ = self.update_active_tab();
        }
        NavOutcome::Moved
    }

    /// Advance to the next node against a fresh snapshot, cascading to
    /// the tab cursor.
    pub fn next_node(&mut self, snapshot: Records) -> (r: NavOutcome)
        ensures
            final(self)@ == spec_next_node(old(self)@, snapshot.0@).0,
            r == spec_next_node(old(self)@, snapshot.0@).1,
    {
        self.update_records(snapshot);
        let out = self.increment_node();
        match out {
            NavOutcome::Moved => {},
            _ => {
                return out;
            },
        }
        if !self.update_active_node() {
            return NavOutcome::Empty;
        }
        let _ = self.update_active_tab();
        NavOutcome::Moved
    }

    /// Retreat to the previous node against a fresh snapshot.
    pub fn previous_node(&mut self, snapshot: Records) -> (r: NavOutcome)
        ensures
            final(self)@ == spec_previous_node(old(self)@, snapshot.0@).0,
            r == spec_previous_node(old(self)@, snapshot.0@).1,
    {
        self.update_records(snapshot);
        let out = self.decrement_node();
        match out {
            NavOutcome::Moved => {},
            _ => {
                return out;
            },
        }
        if !self.update_active_node() {
            return NavOutcome::Empty;
        }
        let _ = self.update_active_tab();
        NavOutcome::Moved
    }

    /// Advance to the next tab against a fresh snapshot.
    pub fn next_tab(&mut self, snapshot: Records) -> (r: NavOutcome)
        ensures
            final(self)@ == spec_next_tab(old(self)@, snapshot.0@).0,
            r == spec_next_tab(old(self)@, snapshot.0@).1,
    {
        self.update_records(snapshot);
        let out = self.increment_tab();
        match out {
            NavOutcome::Moved => {},
            _ => {
                return out;
            },
        }
        if self.update_active_tab() {
            NavOutcome::Moved
        } else {
            NavOutcome::Empty
        }
    }

    /// Retreat to the previous tab against a fresh snapshot.
    pub fn previous_tab(&mut self, snapshot: Records) -> (r: NavOutcome)
        ensures
            final(self)@ == spec_previous_tab(old(self)@, snapshot.0@).0,
            r == spec_previous_tab(old(self)@, snapshot.0@).1,
    {
        self.update_records(snapshot);
        let out = self.decrement_tab();
        match out {
            NavOutcome::Moved => {},
            _ => {
                return out;
            },
        }
        if self.update_active_tab() {
            NavOutcome::Moved
        } else {
            NavOutcome::Empty
        }
    }

    /// Issue a tab name no earlier call has issued.
    pub fn new_name(&mut self) -> (r: String)
        requires
            crate::identifier::wf_names(old(self)@.tab_names),
            old(self)@.tab_names.len() < crate::identifier::NAME_POOL_CAP,
        ensures
            crate::identifier::fresh_name(old(self)@.tab_names, r@),
            final(self)@ == (TabView { tab_names: old(self)@.tab_names.push(r), ..old(self)@ }),
            crate::identifier::wf_names(final(self)@.tab_names),
            crate::identifier::names_distinct(old(self)@.tab_names)
                ==> crate::identifier::names_distinct(final(self)@.tab_names),
    {
        let name = self.tab_names.new_name();
        proof {
            assert(self@ =~= (TabView { tab_names: old(self)@.tab_names.push(name), ..old(self)@ }));
        }
        name
    }

    /// Issue `count` tab names, unique among all issued and one another.
    pub fn new_names(&mut self, count: usize) -> (r: Vec<String>)
        requires
            crate::identifier::wf_names(old(self)@.tab_names),
            old(self)@.tab_names.len() + count <= crate::identifier::NAME_POOL_CAP,
        ensures
            r@.len() == count,
            final(self)@ == (TabView { tab_names: old(self)@.tab_names + r@, ..old(self)@ }),
            crate::identifier::wf_names(final(self)@.tab_names),
            crate::identifier::names_distinct(old(self)@.tab_names)
                ==> crate::identifier::names_distinct(final(self)@.tab_names),
    {
        let names = self.tab_names.new_names(count);
        proof {
            assert(self@ =~= (TabView { tab_names: old(self)@.tab_names + names@, ..old(self)@ }));
        }
        names
    }

    /// Dispatch one dock action: navigation actions run against the fresh
    /// snapshot, selection uses the cursors as they stand, and the rest
    /// leave the engine alone.  The result says whether anything changed.
    pub fn act(&mut self, act: &crate::acts::Dock, snapshot: Records) -> (r: bool)
        ensures
            final(self)@ == spec_act(old(self)@, *act, snapshot.0@).0,
            r == spec_act(old(self)@, *act, snapshot.0@).1,
    {
        match act {
            crate::acts::Dock::CurrentTab => self.select_current_tab(),
            crate::acts::Dock::NextTab => {
                let out = self.next_tab(snapshot);
                out.is_ok() && !matches!(out, NavOutcome::Held)
            },
            crate::acts::Dock::PreviousTab => {
                let out = self.previous_tab(snapshot);
                out.is_ok() && !matches!(out, NavOutcome::Held)
            },
            crate::acts::Dock::NextNode => {
                let out = self.next_node(snapshot);
                out.is_ok() && !matches!(out, NavOutcome::Held)
            },
            crate::acts::Dock::PreviousNode => {
                let out = self.previous_node(snapshot);
                out.is_ok() && !matches!(out, NavOutcome::Held)
            },
            crate::acts::Dock::NextSurface => {
                let out = self.next_surface(snapshot);
                out.is_ok() && !matches!(out, NavOutcome::Held)
            },
            crate::acts::Dock::PreviousSurface => {
                let out = self.previous_surface(snapshot);
                out.is_ok() && !matches!(out, NavOutcome::Held)
            },
            crate::acts::Dock::InspectRecords => false,
            crate::acts::Dock::Be => false,
        }
    }
}

} // verus!

verus! {

/// Empty invariant: a motion at any level whose filtered id list is
/// empty, or whose parent level is not active, reports failure and
/// leaves the whole engine state unchanged.
pub proof fn lemma_empty_level_no_effect(v: TabView)
    ensures
        v.surfaces.len() == 0 ==> spec_increment_surface(v) == (v, NavOutcome::Empty)
            && spec_decrement_surface(v) == (v, NavOutcome::Empty),
        (v.surface_index is None || (v.surface_index matches Some(s)
            && node_ids_view(v.records, s).len() == 0)) ==> spec_increment_node(v) == (
            v,
            NavOutcome::Empty,
        ) && spec_decrement_node(v) == (v, NavOutcome::Empty) && spec_update_active_node(v) == (
            v,
            false,
        ),
        (v.node_index is None || (v.node_index matches Some(n) && tab_ids_view(
            v.records,
            n,
        ).len() == 0)) ==> spec_increment_tab(v) == (v, NavOutcome::Empty)
            && spec_decrement_tab(v) == (v, NavOutcome::Empty) && spec_update_active_tab(v) == (
            v,
            false,
        ),
{
    if v.surfaces.len() == 0 {
        assert(spec_increment_surface(v).0 =~= v);
        assert(spec_decrement_surface(v).0 =~= v);
    }
    match v.surface_index {
        Some(s) => {
            if node_ids_view(v.records, s).len() == 0 {
                assert(spec_increment_node(v).0 =~= v);
                assert(spec_decrement_node(v).0 =~= v);
            }
        },
        None => {},
    }
    match v.node_index {
        Some(n) => {
            if tab_ids_view(v.records, n).len() == 0 {
                assert(spec_increment_tab(v).0 =~= v);
                assert(spec_decrement_tab(v).0 =~= v);
            }
        },
        None => {},
    }
}

/// Repair invariant: when the stored cursor id is absent from the
/// freshly filtered id list, re-resolving the level snaps the active id
/// to the first id of that list and still reports success.
pub proof fn lemma_repair_snaps_to_first(v: TabView)
    ensures
        (v.surface_index matches Some(s) && node_ids_view(v.records, s).len() > 0
            && !node_ids_view(v.records, s).contains(v.node)) ==> ({
            let ids = node_ids_view(v.records, v.surface_index->Some_0);
            &&& spec_update_active_node(v).1 == true
            &&& spec_update_active_node(v).0.node_index == Some(
                nodes_view(v.records)[ids[0] as int],
            )
        }),
        (v.node_index matches Some(n) && tab_ids_view(v.records, n).len() > 0 && !tab_ids_view(
            v.records,
            n,
        ).contains(v.tab)) ==> ({
            let ids = tab_ids_view(v.records, v.node_index->Some_0);
            &&& spec_update_active_tab(v).1 == true
            &&& spec_update_active_tab(v).0.tab_index == Some(tabs_view(v.records)[ids[0] as int])
        }),
{
}

} // verus!
