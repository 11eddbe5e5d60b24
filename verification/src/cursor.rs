//! Pure wrap-around stepping over id lists.
//!
//! Both navigation engines (the three-level dock cursor and the two-level
//! focus tree) move an integer cursor over a freshly derived list of ids,
//! advancing or retreating with wrap-around, holding still on a singleton
//! list, and failing without effect on an empty one.  The spec functions
//! here state that stepping discipline once; the engines' contracts are
//! phrased over them.

use vstd::prelude::*;

verus! {

/// Outcome of a single cursor motion.
#[derive(Debug, Copy, Clone, PartialEq, Eq, Structural)]
pub enum NavOutcome {
    /// The cursor moved to another element, by advancing, wrapping, or
    /// snapping to the first valid element.
    Moved,
    /// The list holds exactly one element and the cursor already sits on
    /// it: no movement, but not a failure either.
    Held,
    /// The list is empty, or no parent level is active: nothing changed,
    /// reported as a failure.
    Empty,
}

impl NavOutcome {
    /// True for the outcomes that leave the cursor on a valid element.
    pub fn is_ok(&self) -> (r: bool)
        ensures
            r == (*self != NavOutcome::Empty),
    {
        match self {
            NavOutcome::Moved => true,
            NavOutcome::Held => true,
            NavOutcome::Empty => false,
        }
    }
}

/// Position of the first occurrence of `v` in `ids`, or -1 when absent.
pub open spec fn find_pos(ids: Seq<usize>, v: usize) -> int
    decreases ids.len(),
{
    if ids.len() == 0 {
        -1
    } else if ids[0] == v {
        0
    } else {
        let r = find_pos(ids.skip(1), v);
        if r < 0 {
            -1
        } else {
            r + 1
        }
    }
}

/// No id occurs twice.
pub open spec fn distinct(ids: Seq<usize>) -> bool {
    forall|i: int, j: int| 0 <= i < j < ids.len() ==> ids[i] != ids[j]
}

/// The id after `cur` in `ids`, wrapping past the end; the first id when
/// `cur` is stale (absent from the list); `cur` itself when the list is
/// empty or a singleton already holding the cursor.
pub open spec fn next_in(ids: Seq<usize>, cur: usize) -> usize {
    let p = find_pos(ids, cur);
    if ids.len() == 0 {
        cur
    } else if p < 0 {
        ids[0]
    } else if p + 1 < ids.len() {
        ids[p + 1]
    } else if ids.len() == 1 {
        cur
    } else {
        ids[0]
    }
}

/// The id before `cur` in `ids`, wrapping to the last before the first.
pub open spec fn prev_in(ids: Seq<usize>, cur: usize) -> usize {
    let p = find_pos(ids, cur);
    if ids.len() == 0 {
        cur
    } else if p < 0 {
        ids[0]
    } else if ids.len() == 1 {
        cur
    } else if p == 0 {
        ids[ids.len() - 1]
    } else {
        ids[p - 1]
    }
}

/// What a motion over `ids` starting from `cur` reports: failure on an
/// empty list, no movement when the cursor sits alone, movement otherwise.
pub open spec fn step_outcome(ids: Seq<usize>, cur: usize) -> NavOutcome {
    if ids.len() == 0 {
        NavOutcome::Empty
    } else if ids.len() == 1 && find_pos(ids, cur) == 0 {
        NavOutcome::Held
    } else {
        NavOutcome::Moved
    }
}

/// Advancing a plain positional cursor: one past `cur`, wrapping to 0 at
/// the end, holding still on a singleton, untouched on an empty list.
pub open spec fn next_pos(len: nat, cur: nat) -> nat {
    if len == 0 {
        cur
    } else if len > cur + 1 {
        cur + 1
    } else if len == 1 {
        cur
    } else {
        0
    }
}

/// Retreating a plain positional cursor: one before `cur`, wrapping to
/// `len - 1` before 0, holding still on a singleton at 0.
pub open spec fn prev_pos(len: nat, cur: nat) -> nat {
    if len == 0 {
        cur
    } else if len == 1 && cur == 0 {
        cur
    } else if cur == 0 {
        (len - 1) as nat
    } else {
        (cur - 1) as nat
    }
}

/// Outcome of advancing a positional cursor over a list of length `len`.
pub open spec fn pos_outcome(len: nat, cur: nat) -> NavOutcome {
    if len == 0 {
        NavOutcome::Empty
    } else if len == 1 {
        NavOutcome::Held
    } else {
        NavOutcome::Moved
    }
}

/// Outcome of retreating a positional cursor: held only on a singleton
/// with the cursor already at its start.
pub open spec fn prev_pos_outcome(len: nat, cur: nat) -> NavOutcome {
    if len == 0 {
        NavOutcome::Empty
    } else if len == 1 && cur == 0 {
        NavOutcome::Held
    } else {
        NavOutcome::Moved
    }
}

/// `next_in` iterated `n` times from `cur`.
pub open spec fn next_in_n(ids: Seq<usize>, cur: usize, n: nat) -> usize
    decreases n,
{
    if n == 0 {
        cur
    } else {
        next_in(ids, next_in_n(ids, cur, (n - 1) as nat))
    }
}

/// `next_pos` iterated `n` times from `cur`.
pub open spec fn next_pos_n(len: nat, cur: nat, n: nat) -> nat
    decreases n,
{
    if n == 0 {
        cur
    } else {
        next_pos(len, next_pos_n(len, cur, (n - 1) as nat))
    }
}

proof fn lemma_pos_cycle_aux(len: nat, cur: nat, n: nat)
    requires
        cur < len,
        n <= len,
    ensures
        next_pos_n(len, cur, n) == if cur + n < len {
            cur + n
        } else {
            (cur + n - len) as nat
        },
    decreases n,
{
    if n > 0 {
        lemma_pos_cycle_aux(len, cur, (n - 1) as nat);
    }
}

/// Wrap invariant for the positional cursor (the surface level):
/// advancing as many times as the list is long returns the cursor to its
/// start, from any in-range position.
pub proof fn lemma_pos_increment_cycle(len: nat, cur: nat)
    requires
        0 < len,
        cur < len,
    ensures
        next_pos_n(len, cur, len) == cur,
{
    lemma_pos_cycle_aux(len, cur, len);
}

/// Retreating undoes advancing for the positional cursor, from any
/// in-range position, including across the wrap.
pub proof fn lemma_pos_decrement_undoes_increment(len: nat, cur: nat)
    requires
        0 < len,
        cur < len,
    ensures
        prev_pos(len, next_pos(len, cur)) == cur,
{
}

proof fn lemma_find_pos_bounds(ids: Seq<usize>, v: usize)
    ensures
        -1 <= find_pos(ids, v) < ids.len(),
        find_pos(ids, v) >= 0 ==> ids[find_pos(ids, v)] == v,
        (find_pos(ids, v) >= 0) == ids.contains(v),
    decreases ids.len(),
{
    if ids.len() > 0 && ids[0] != v {
        lemma_find_pos_bounds(ids.skip(1), v);
        let r = find_pos(ids.skip(1), v);
        if r >= 0 {
            assert(ids[r + 1] == ids.skip(1)[r]);
            assert(ids.contains(v)) by {
                assert(ids[r + 1] == v);
            }
        } else {
            if ids.contains(v) {
                let w = choose|w: int| 0 <= w < ids.len() && ids[w] == v;
                assert(ids.skip(1)[w - 1] == v);
                assert(ids.skip(1).contains(v));
            }
        }
    }
}

/// On a duplicate-free list, the first occurrence of `ids[p]` is `p`.
proof fn lemma_find_pos_distinct(ids: Seq<usize>, p: int)
    requires
        distinct(ids),
        0 <= p < ids.len(),
    ensures
        find_pos(ids, ids[p]) == p,
    decreases ids.len(),
{
    if p > 0 {
        assert(ids[0] != ids[p]);
        assert(distinct(ids.skip(1))) by {
            assert(forall|i: int, j: int|
                0 <= i < j < ids.skip(1).len() ==> ids.skip(1)[i] == ids[i + 1]
                    && ids.skip(1)[j] == ids[j + 1]);
        }
        lemma_find_pos_distinct(ids.skip(1), p - 1);
        assert(ids.skip(1)[p - 1] == ids[p]);
    }
}

/// Stepping from the element at position `p` lands on the element at the
/// next position, wrapping past the end.
proof fn lemma_next_at(ids: Seq<usize>, p: int)
    requires
        distinct(ids),
        0 <= p < ids.len(),
    ensures
        next_in(ids, ids[p]) == ids[if p + 1 < ids.len() {
            p + 1
        } else {
            0
        }],
{
    lemma_find_pos_distinct(ids, p);
}

proof fn lemma_cycle_aux(ids: Seq<usize>, p: int, n: nat)
    requires
        distinct(ids),
        0 <= p < ids.len(),
        n <= ids.len(),
    ensures
        next_in_n(ids, ids[p], n) == ids[if p + n < ids.len() {
            p + n
        } else {
            p + n - ids.len()
        }],
    decreases n,
{
    if n > 0 {
        lemma_cycle_aux(ids, p, (n - 1) as nat);
        let q: int = if p + n - 1 < ids.len() {
            p + n - 1
        } else {
            p + n - 1 - ids.len()
        };
        lemma_next_at(ids, q);
    }
}

/// Wrap invariant, advancing: over a non-empty duplicate-free id list of
/// length N, advancing N times from any id in the list returns the cursor
/// to that id.
pub proof fn lemma_increment_cycle(ids: Seq<usize>, cur: usize)
    requires
        ids.len() > 0,
        distinct(ids),
        ids.contains(cur),
    ensures
        next_in_n(ids, cur, ids.len()) == cur,
{
    lemma_find_pos_bounds(ids, cur);
    let p = find_pos(ids, cur);
    lemma_cycle_aux(ids, p, ids.len());
}

/// Wrap invariant, retreating: from any id in a duplicate-free list,
/// retreating undoes advancing.
pub proof fn lemma_decrement_undoes_increment(ids: Seq<usize>, cur: usize)
    requires
        ids.len() > 0,
        distinct(ids),
        ids.contains(cur),
    ensures
        prev_in(ids, next_in(ids, cur)) == cur,
{
    lemma_find_pos_bounds(ids, cur);
    let p = find_pos(ids, cur);
    lemma_find_pos_distinct(ids, p);
    if ids.len() == 1 {
    } else if p + 1 < ids.len() {
        lemma_find_pos_distinct(ids, p + 1);
    } else {
        lemma_find_pos_distinct(ids, 0);
    }
}

/// Singleton invariant: a cursor over a one-element list never moves,
/// in either direction, and the outcome is "held", never a failure.
pub proof fn lemma_singleton_holds(ids: Seq<usize>, cur: usize)
    requires
        ids.len() == 1,
        ids.contains(cur),
    ensures
        next_in(ids, cur) == cur,
        prev_in(ids, cur) == cur,
        step_outcome(ids, cur) == NavOutcome::Held,
{
    assert(ids[0] == cur);
}

/// `find_pos` is the first occurrence: in bounds, hitting the value, with
/// nothing equal before it; and it is negative exactly when the value is
/// absent.
pub proof fn lemma_find_pos_first(ids: Seq<usize>, v: usize)
    ensures
        (find_pos(ids, v) >= 0) == ids.contains(v),
        find_pos(ids, v) >= 0 ==> find_pos(ids, v) < ids.len() && ids[find_pos(ids, v)] == v,
        forall|j: int| 0 <= j < find_pos(ids, v) ==> ids[j] != v,
    decreases ids.len(),
{
    lemma_find_pos_bounds(ids, v);
    if ids.len() > 0 && ids[0] != v {
        lemma_find_pos_first(ids.skip(1), v);
        assert forall|j: int| 0 <= j < find_pos(ids, v) implies ids[j] != v by {
            if j > 0 {
                assert(ids.skip(1)[j - 1] == ids[j]);
            }
        }
    }
}

/// Whether an id list contains a value.
pub fn ids_contain(ids: &Vec<usize>, v: usize) -> (r: bool)
    ensures
        r == ids@.contains(v),
{
    let mut i: usize = 0;
    while i < ids.len()
        invariant
            i <= ids@.len(),
            forall|j: int| 0 <= j < i ==> ids@[j] != v,
        decreases ids@.len() - i,
    {
        if ids[i] == v {
            return true;
        }
        i += 1;
    }
    false
}

/// The position of the first occurrence of a value in an id list.
pub fn ids_position(ids: &Vec<usize>, v: usize) -> (r: Option<usize>)
    ensures
        find_pos(ids@, v) >= 0 ==> r == Some(find_pos(ids@, v) as usize),
        find_pos(ids@, v) < 0 ==> r is None,
{
    proof {
        lemma_find_pos_first(ids@, v);
    }
    let mut i: usize = 0;
    while i < ids.len()
        invariant
            i <= ids@.len(),
            forall|j: int| 0 <= j < i ==> ids@[j] != v,
        decreases ids@.len() - i,
    {
        if ids[i] == v {
            proof {
                lemma_find_pos_first(ids@, v);
                assert(ids@[i as int] == v);
                assert(ids@.contains(v));
                let p = find_pos(ids@, v);
                assert(p >= 0);
                if p < i {
                    assert(ids@[p] != v);
                }
                if p > i {
                    assert(ids@[i as int] != v);
                }
            }
            return Some(i);
        }
        i += 1;
    }
    proof {
        lemma_find_pos_first(ids@, v);
        if ids@.contains(v) {
            assert(ids@[find_pos(ids@, v)] == v);
        }
    }
    None
}

/// Advance a cursor over an id list, wrapping past the end, snapping a
/// stale cursor to the first id; reports whether it moved, held on a
/// singleton, or had nothing to move over.
pub fn step_next(ids: &Vec<usize>, cur: usize) -> (r: (usize, NavOutcome))
    ensures
        r.0 == next_in(ids@, cur),
        r.1 == step_outcome(ids@, cur),
{
    proof {
        lemma_find_pos_first(ids@, cur);
    }
    if ids.len() == 0 {
        return (cur, NavOutcome::Empty);
    }
    match ids_position(ids, cur) {
        Some(p) => {
            if p + 1 < ids.len() {
                (ids[p + 1], NavOutcome::Moved)
            } else if ids.len() == 1 {
                (cur, NavOutcome::Held)
            } else {
                (ids[0], NavOutcome::Moved)
            }
        },
        None => (ids[0], NavOutcome::Moved),
    }
}

/// Retreat a cursor over an id list, wrapping to the last id before the
/// first, snapping a stale cursor to the first id.
pub fn step_prev(ids: &Vec<usize>, cur: usize) -> (r: (usize, NavOutcome))
    ensures
        r.0 == prev_in(ids@, cur),
        r.1 == step_outcome(ids@, cur),
{
    proof {
        lemma_find_pos_first(ids@, cur);
    }
    if ids.len() == 0 {
        return (cur, NavOutcome::Empty);
    }
    match ids_position(ids, cur) {
        Some(p) => {
            if ids.len() == 1 {
                (cur, NavOutcome::Held)
            } else if p == 0 {
                (ids[ids.len() - 1], NavOutcome::Moved)
            } else {
                (ids[p - 1], NavOutcome::Moved)
            }
        },
        None => (ids[0], NavOutcome::Moved),
    }
}

} // verus!
