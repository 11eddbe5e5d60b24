//! Table plumbing: view configuration, tabular traits, and the
//! displayable projection of the binding table.
//!
//! The binding table can render itself as rows of chord text and action
//! name for a help window; that projection is pure, not a control
//! surface.  The traits let the presentation layer treat any rowed data
//! source uniformly.

use crate::binding::{Choices, CommandOptions};
use crate::character::{
    Attributes, DisplayColumns, DisplayField, Encumbrance, EncumbranceField,
};
use crate::command::spec_render;
use vstd::prelude::*;

verus! {

/// Configuration parameters for a table view.
#[derive(Debug, Copy, Clone, PartialEq, Eq, Structural)]
pub struct TableConfig {
    /// Match case when searching.
    pub case_sensitive: bool,
    /// Show a check box column.
    pub checked: bool,
    /// Let the user resize columns.
    pub resizable: bool,
    /// Show the search widget.
    pub search: bool,
    /// Show the row slider widget.
    pub slider: bool,
    /// Stripe alternate rows.
    pub striped: bool,
}

impl Default for TableConfig {
    fn default() -> (r: Self)
        ensures
            r == (TableConfig {
                case_sensitive: false,
                checked: false,
                resizable: false,
                search: false,
                slider: false,
                striped: false,
            }),
    {
        TableConfig {
            case_sensitive: false,
            checked: false,
            resizable: false,
            search: false,
            slider: false,
            striped: false,
        }
    }
}

impl TableConfig {
    /// The all-off configuration.
    pub fn new() -> (r: Self)
        ensures
            r == (TableConfig {
                case_sensitive: false,
                checked: false,
                resizable: false,
                search: false,
                slider: false,
                striped: false,
            }),
    {
        Default::default()
    }

    /// Turn the check box column on.
    pub fn checked(self) -> (r: Self)
        ensures
            r == (TableConfig { checked: true, ..self }),
    {
        TableConfig { checked: true, ..self }
    }

    /// Turn column resizing on.
    pub fn resizable(self) -> (r: Self)
        ensures
            r == (TableConfig { resizable: true, ..self }),
    {
        TableConfig { resizable: true, ..self }
    }

    /// Turn the search widget on.
    pub fn with_search(self) -> (r: Self)
        ensures
            r == (TableConfig { search: true, ..self }),
    {
        TableConfig { search: true, ..self }
    }

    /// Turn the row slider on.
    pub fn with_slider(self) -> (r: Self)
        ensures
            r == (TableConfig { slider: true, ..self }),
    {
        TableConfig { slider: true, ..self }
    }

    /// Turn row striping on.
    pub fn striped(self) -> (r: Self)
        ensures
            r == (TableConfig { striped: true, ..self }),
    {
        TableConfig { striped: true, ..self }
    }

    /// Turn case-sensitive search on.
    pub fn case_sensitive(self) -> (r: Self)
        ensures
            r == (TableConfig { case_sensitive: true, ..self }),
    {
        TableConfig { case_sensitive: true, ..self }
    }
}

/// Preferences for searching within a card or table.
#[derive(Debug, Copy, Clone, PartialEq, Eq, Structural)]
pub struct SearchConfig {
    /// Match case when searching.
    pub case_sensitive: bool,
}

impl Default for SearchConfig {
    fn default() -> (r: Self)
        ensures
            r == (SearchConfig { case_sensitive: false }),
    {
        SearchConfig { case_sensitive: false }
    }
}

/// A rowed data source for a table view.
pub trait Tabular<T> {
    /// The column headers.
    fn headers() -> Vec<String>;

    /// The rows, one value per row.
    fn rows(&self) -> Vec<T>;

    /// Reorder the rows by one column.
    fn sort_by_col(&mut self, column_index: usize, reverse: bool);
}

/// A data source that can narrow itself by a filter value.
pub trait Filtration<T, U> {
    /// The subset passing the filter.
    fn filter(self, filter: &U) -> T where Self: Sized;
}

impl Tabular<DisplayField> for Attributes {
    fn headers() -> Vec<String> {
        DisplayColumns::names()
    }

    fn rows(&self) -> Vec<DisplayField> {
        let mut out: Vec<DisplayField> = Vec::new();
        let mut iter = self.iter_columns();
        let mut guard: usize = 0;
        while guard < 8
            invariant
                iter.kind == guard,
                guard <= 8,
            decreases 8 - guard,
        {
            match iter.next() {
                Some(field) => out.push(field),
                None => (),
            }
            guard += 1;
        }
        out
    }

    fn sort_by_col(&mut self, column_index: usize, reverse: bool) {
    }
}

impl Filtration<Attributes, String> for Attributes {
    fn filter(self, filter: &String) -> Attributes {
        self
    }
}

impl Tabular<EncumbranceField> for Encumbrance {
    fn headers() -> Vec<String> {
        let mut out: Vec<String> = Vec::new();
        out.push("Level".to_owned());
        out.push("Weight".to_owned());
        out.push("Move".to_owned());
        out.push("Dodge".to_owned());
        out
    }

    fn rows(&self) -> Vec<EncumbranceField> {
        let mut out: Vec<EncumbranceField> = Vec::new();
        let mut iter = self.iter_columns();
        let mut guard: usize = 0;
        while guard < 5
            invariant
                iter.level == guard,
                guard <= 5,
            decreases 5 - guard,
        {
            match iter.next() {
                Some(field) => out.push(field),
                None => (),
            }
            guard += 1;
        }
        out
    }

    fn sort_by_col(&mut self, column_index: usize, reverse: bool) {
    }
}

impl Filtration<Encumbrance, String> for Encumbrance {
    fn filter(self, filter: &String) -> Encumbrance {
        self
    }
}

/// One row of the command help window: a chord and what it does.
#[derive(Debug)]
pub struct CommandRow {
    /// Stable row identity for table views.
    pub id: u64,
    /// The chord's canonical text.
    pub command: String,
    /// The bound action's or group's display name.
    pub act: String,
    /// Whether the row is shown; set by the view's check boxes.
    pub visible: bool,
}

impl Clone for CommandRow {
    fn clone(&self) -> (r: Self)
        ensures
            r.id == self.id,
            r.command@ == self.command@,
            r.act@ == self.act@,
            r.visible == self.visible,
    {
        CommandRow {
            id: self.id,
            command: self.command.clone(),
            act: self.act.clone(),
            visible: self.visible,
        }
    }
}

impl CommandRow {
    /// A visible row from its two texts.
    pub fn new(command: &str, act: &str) -> (r: Self)
        ensures
            r.id == 0,
            r.command@ == command@,
            r.act@ == act@,
            r.visible == true,
    {
        CommandRow { id: 0, command: command.to_owned(), act: act.to_owned(), visible: true }
    }
}

/// Whether a rendered key/value entry survives a search: the fragment
/// occurs in the key text or in the value text.
pub open spec fn entry_matches(key: Seq<char>, value: Seq<char>, fragment: Seq<char>) -> bool {
    crate::text::contains_text(key, fragment) || crate::text::contains_text(value, fragment)
}

/// Whether a rendered key/value entry survives a search.
pub fn entry_survives(key: &str, value: &str, fragment: &str) -> (r: bool)
    ensures
        r == entry_matches(key@, value@, fragment@),
{
    crate::text::text_contains(key, fragment) || crate::text::text_contains(value, fragment)
}

/// How many of the first `j` rendered entries survive the search.
pub open spec fn surviving_count(es: Seq<(String, String)>, fragment: Seq<char>, j: int) -> int
    decreases j,
{
    if j <= 0 {
        0
    } else {
        surviving_count(es, fragment, j - 1) + if entry_matches(
            es[j - 1].0@,
            es[j - 1].1@,
            fragment,
        ) {
            1int
        } else {
            0int
        }
    }
}

proof fn lemma_surviving_le(es: Seq<(String, String)>, fragment: Seq<char>, a: int, b: int)
    requires
        0 <= a <= b,
    ensures
        0 <= surviving_count(es, fragment, b) <= b,
        surviving_count(es, fragment, a) <= surviving_count(es, fragment, b),
        a < b && entry_matches(es[a].0@, es[a].1@, fragment) ==> surviving_count(es, fragment, a)
            < surviving_count(es, fragment, b),
    decreases b,
{
    if a < b {
        lemma_surviving_le(es, fragment, a, b - 1);
    } else if b > 0 {
        lemma_surviving_le(es, fragment, 0, b - 1);
    }
}

/// The rendered entries surviving a search, in order; each survivor
/// reads the same as its source entry.
pub fn filter_entries(entries: &Vec<(String, String)>, fragment: &str) -> (r: Vec<
    (String, String),
>)
    ensures
        r@.len() == surviving_count(entries@, fragment@, entries@.len() as int),
        forall|j: int|
            0 <= j < entries@.len() && entry_matches(
                (#[trigger] entries@[j]).0@,
                entries@[j].1@,
                fragment@,
            ) ==> {
                let k = surviving_count(entries@, fragment@, j);
                &&& r@[k].0@ == entries@[j].0@
                &&& r@[k].1@ == entries@[j].1@
            },
{
    let mut out: Vec<(String, String)> = Vec::new();
    let mut i: usize = 0;
    while i < entries.len()
        invariant
            i <= entries@.len(),
            out@.len() == surviving_count(entries@, fragment@, i as int),
            forall|j: int|
                0 <= j < i && entry_matches(
                    (#[trigger] entries@[j]).0@,
                    entries@[j].1@,
                    fragment@,
                ) ==> {
                    let k = surviving_count(entries@, fragment@, j);
                    &&& out@[k].0@ == entries@[j].0@
                    &&& out@[k].1@ == entries@[j].1@
                },
        decreases entries@.len() - i,
    {
        let entry = &entries[i];
        if entry_survives(entry.0.as_str(), entry.1.as_str(), fragment) {
            let ghost pre_out = out@;
            let copy = (entry.0.clone(), entry.1.clone());
            let ghost cp = copy;
            out.push(copy);
            proof {
                assert(out@ == pre_out.push(cp));
                assert forall|j: int|
                    0 <= j < i + 1 && entry_matches(
                        (#[trigger] entries@[j]).0@,
                        entries@[j].1@,
                        fragment@,
                    ) implies {
                    let k = surviving_count(entries@, fragment@, j);
                    &&& out@[k].0@ == entries@[j].0@
                    &&& out@[k].1@ == entries@[j].1@
                } by {
                    lemma_surviving_le(entries@, fragment@, 0, j);
                    lemma_surviving_le(entries@, fragment@, j, i as int);
                    let k = surviving_count(entries@, fragment@, j);
                    if j < i {
                        assert(k < pre_out.len());
                        assert(pre_out.push(cp)[k] == pre_out[k]);
                        assert(out@[k] == pre_out[k]);
                    } else {
                        assert(k == pre_out.len());
                        assert(out@[k] == cp);
                    }
                }
            }
        }
        i += 1;
    }
    out
}

/// The display label of a binding entry.
pub open spec fn opts_label(o: CommandOptions) -> Seq<char> {
    match o {
        CommandOptions::Commands(g) => g.name@,
        CommandOptions::Acts(v) => if v@.len() > 0 {
            v@[0].spec_label()
        } else {
            "Be"@
        },
    }
}

/// Two rows that read the same: equal identity, texts and visibility.
pub open spec fn row_like(a: CommandRow, b: CommandRow) -> bool {
    &&& a.id == b.id
    &&& a.command@ == b.command@
    &&& a.act@ == b.act@
    &&& a.visible == b.visible
}

/// How many of the first `j` rows match the visibility flag.
pub open spec fn vis_count(rows: Seq<CommandRow>, flag: bool, j: int) -> int
    decreases j,
{
    if j <= 0 {
        0
    } else {
        vis_count(rows, flag, j - 1) + if rows[j - 1].visible == flag {
            1int
        } else {
            0int
        }
    }
}

proof fn lemma_vis_count_le(rows: Seq<CommandRow>, flag: bool, a: int, b: int)
    requires
        0 <= a <= b,
    ensures
        0 <= vis_count(rows, flag, b) <= b,
        vis_count(rows, flag, a) <= vis_count(rows, flag, b),
        a < b && rows[a].visible == flag ==> vis_count(rows, flag, a) < vis_count(rows, flag, b),
    decreases b,
{
    if a < b {
        lemma_vis_count_le(rows, flag, a, b - 1);
    } else if b > 0 {
        lemma_vis_count_le(rows, flag, 0, b - 1);
    }
}

/// The help-window projection of a binding table.
#[derive(Debug, Clone)]
pub struct CommandTable(pub Vec<CommandRow>);

impl CommandTable {
    /// The column headers of the projection.
    pub fn headers() -> (r: Vec<String>)
        ensures
            r@.len() == 2,
            r@[0]@ == "Command"@,
            r@[1]@ == "Act"@,
    {
        let mut out: Vec<String> = Vec::new();
        out.push("Command".to_owned());
        out.push("Act".to_owned());
        out
    }

    /// Project a binding table: one visible row per entry, in table
    /// order, rendering the chord and naming the binding.
    pub fn from_choices(choices: &Choices) -> (r: CommandTable)
        ensures
            r.0@.len() == choices.0@.len(),
            forall|k: int|
                0 <= k < r.0@.len() ==> {
                    &&& (#[trigger] r.0@[k]).command@ == spec_render(choices.0@[k].0)
                    &&& r.0@[k].act@ == opts_label(choices.0@[k].1)
                    &&& r.0@[k].visible == true
                    &&& r.0@[k].id == k
                },
    {
        let mut out: Vec<CommandRow> = Vec::new();
        let mut i: usize = 0;
        while i < choices.0.len()
            invariant
                i <= choices.0@.len(),
                out@.len() == i,
                forall|k: int|
                    0 <= k < i ==> {
                        &&& (#[trigger] out@[k]).command@ == spec_render(choices.0@[k].0)
                        &&& out@[k].act@ == opts_label(choices.0@[k].1)
                        &&& out@[k].visible == true
                        &&& out@[k].id == k
                    },
            decreases choices.0@.len() - i,
        {
            let entry = &choices.0[i];
            let command = entry.0.render();
            let act = entry.1.label();
            out.push(CommandRow { id: i as u64, command, act, visible: true });
            i += 1;
        }
        CommandTable(out)
    }

    /// The rows of the projection.
    pub fn rows(&self) -> (r: &Vec<CommandRow>)
        ensures
            r@ == self.0@,
    {
        &self.0
    }

    /// The rows whose visibility matches the flag, in order.
    pub fn filter_visible(&self, flag: bool) -> (r: CommandTable)
        ensures
            r.0@.len() == vis_count(self.0@, flag, self.0@.len() as int),
            forall|j: int|
                0 <= j < self.0@.len() && (#[trigger] self.0@[j]).visible == flag ==> row_like(
                    self.0@[j],
                    r.0@[vis_count(self.0@, flag, j)],
                ),
    {
        let mut out: Vec<CommandRow> = Vec::new();
        let mut i: usize = 0;
        while i < self.0.len()
            invariant
                i <= self.0@.len(),
                out@.len() == vis_count(self.0@, flag, i as int),
                forall|j: int|
                    0 <= j < i && (#[trigger] self.0@[j]).visible == flag ==> row_like(
                        self.0@[j],
                        out@[vis_count(self.0@, flag, j)],
                    ),
            decreases self.0@.len() - i,
        {
            let row = &self.0[i];
            if row.visible == flag {
                let ghost pre_out = out@;
                let copy = row.clone();
                let ghost cp = copy;
                out.push(copy);
                proof {
                    assert(out@ == pre_out.push(cp));
                    assert forall|j: int|
                        0 <= j < i + 1 && (#[trigger] self.0@[j]).visible == flag implies row_like(
                        self.0@[j],
                        out@[vis_count(self.0@, flag, j)],
                    ) by {
                        lemma_vis_count_le(self.0@, flag, 0, j);
                        lemma_vis_count_le(self.0@, flag, j, i as int);
                        if j < i {
                            assert(vis_count(self.0@, flag, j) < pre_out.len());
                            assert(pre_out.push(cp)[vis_count(self.0@, flag, j)] == pre_out[vis_count(
                                self.0@,
                                flag,
                                j,
                            )]);
                            assert(out@[vis_count(self.0@, flag, j)] == pre_out[vis_count(
                                self.0@,
                                flag,
                                j,
                            )]);
                        } else {
                            assert(vis_count(self.0@, flag, j) == pre_out.len());
                            assert(out@[vis_count(self.0@, flag, j)] == cp);
                            assert(row_like(self.0@[i as int], cp));
                        }
                    }
                }
            }
            i += 1;
        }
        CommandTable(out)
    }
}

impl Filtration<CommandTable, bool> for CommandTable {
    fn filter(self, filter: &bool) -> CommandTable {
        self.filter_visible(*filter)
    }
}

/// The text a column orders by: the action name for the second column,
/// the chord text otherwise.
pub open spec fn row_key(row: CommandRow, column_index: usize) -> Seq<char> {
    if column_index == 1 {
        row.act@
    } else {
        row.command@
    }
}

/// Row order for one column, possibly reversed.
pub open spec fn rows_le(a: CommandRow, b: CommandRow, column_index: usize, reverse: bool) -> bool {
    if reverse {
        crate::text::lex_le(row_key(b, column_index), row_key(a, column_index))
    } else {
        crate::text::lex_le(row_key(a, column_index), row_key(b, column_index))
    }
}

/// Every adjacent pair of rows is in order for the column.
pub open spec fn sorted_rows(
    rows: Seq<CommandRow>,
    column_index: usize,
    reverse: bool,
) -> bool {
    forall|k: int|
        0 <= k < rows.len() - 1 ==> rows_le(#[trigger] rows[k], rows[k + 1], column_index, reverse)
}

/// Whether `a` comes no later than `b` in the column's order.
fn row_le(a: &CommandRow, b: &CommandRow, column_index: usize, reverse: bool) -> (r: bool)
    ensures
        r == rows_le(*a, *b, column_index, reverse),
{
    if column_index == 1 {
        if reverse {
            crate::text::str_le(b.act.as_str(), a.act.as_str())
        } else {
            crate::text::str_le(a.act.as_str(), b.act.as_str())
        }
    } else {
        if reverse {
            crate::text::str_le(b.command.as_str(), a.command.as_str())
        } else {
            crate::text::str_le(a.command.as_str(), b.command.as_str())
        }
    }
}

impl CommandTable {
    /// Reorder the rows by one column, ascending or descending: the same
    /// rows, every adjacent pair in order.  A column index beyond the two
    /// columns changes nothing.
    #[verifier::rlimit(100)]
    pub fn sort_rows(&mut self, column_index: usize, reverse: bool)
        ensures
            column_index >= 2 ==> final(self).0@ == old(self).0@,
            column_index < 2 ==> {
                &&& final(self).0@.to_multiset() == old(self).0@.to_multiset()
                &&& sorted_rows(final(self).0@, column_index, reverse)
            },
    {
        if column_index >= 2 {
            return ;
        }
        let mut i: usize = 1;
        while i < self.0.len()
            invariant
                column_index < 2,
                i >= 1,
                self.0@.len() == old(self).0@.len(),
                self.0@.to_multiset() == old(self).0@.to_multiset(),
                forall|k: int|
                    0 <= k < i - 1 ==> rows_le(
                        #[trigger] self.0@[k],
                        self.0@[k + 1],
                        column_index,
                        reverse,
                    ),
            decreases self.0@.len() - i,
        {
            let ghost pre = self.0@;
            let row = self.0.remove(i);
            let ghost r = row;
            let mut j: usize = i;
            while j > 0
                invariant_except_break
                    column_index < 2,
                    j <= i,
                    i < pre.len(),
                    self.0@ == pre.remove(i as int),
                    r == pre[i as int],
                    row == r,
                    forall|k: int|
                        j <= k < i ==> rows_le(r, #[trigger] self.0@[k], column_index, reverse),
                ensures
                    j <= i,
                    i < pre.len(),
                    self.0@ == pre.remove(i as int),
                    r == pre[i as int],
                    forall|k: int|
                        j <= k < i ==> rows_le(r, #[trigger] self.0@[k], column_index, reverse),
                    j == 0 || rows_le(self.0@[j - 1], r, column_index, reverse),
                decreases j,
            {
                let earlier = &self.0[j - 1];
                let ghost prev = self.0@[j - 1];
                proof {
                    assert(*earlier == prev);
                }
                let stop = row_le(earlier, &row, column_index, reverse);
                proof {
                    assert(stop == rows_le(prev, r, column_index, reverse));
                }
                if stop {
                    break ;
                }
                proof {
                    crate::text::lemma_lex_total(
                        row_key(prev, column_index),
                        row_key(r, column_index),
                    );
                    assert(rows_le(r, prev, column_index, reverse));
                }
                j -= 1;
            }
            let ghost jj = j as int;
            let ghost ii = i as int;
            self.0.insert(j, row);
            proof {
                broadcast use vstd::seq_lib::group_to_multiset_ensures;

                let cur = self.0@;
                assert(cur == pre.remove(ii).insert(jj, r));
                pre.remove_ensures(ii);
                pre.remove(ii).insert_ensures(jj, r);
                assert(cur.remove(jj) =~= pre.remove(ii)) by {
                    cur.remove_ensures(jj);
                }
                assert(cur[jj] == r);
                assert(cur.to_multiset().remove(r) =~= pre.to_multiset().remove(r));
                assert(cur.contains(r)) by {
                    assert(cur[jj] == r);
                }
                assert(pre.contains(r)) by {
                    assert(pre[ii] == r);
                }
                assert(cur.to_multiset().count(r) > 0);
                assert(pre.to_multiset().count(r) > 0);
                assert(cur.to_multiset() =~= pre.to_multiset()) by {
                    assert(forall|v: CommandRow|
                        v != r ==> cur.to_multiset().count(v) == cur.to_multiset().remove(r).count(
                            v,
                        ) && pre.to_multiset().count(v) == pre.to_multiset().remove(r).count(v));
                    assert(cur.to_multiset().count(r) == cur.to_multiset().remove(r).count(r) + 1);
                    assert(pre.to_multiset().count(r) == pre.to_multiset().remove(r).count(r) + 1);
                }
                assert forall|k: int|
                    0 <= k < i + 1 - 1 implies rows_le(
                    #[trigger] cur[k],
                    cur[k + 1],
                    column_index,
                    reverse,
                ) by {
                    if k + 1 < jj {
                        assert(cur[k] == pre[k] && cur[k + 1] == pre[k + 1]);
                    } else if k + 1 == jj {
                        assert(cur[k] == pre[k] && cur[jj] == r);
                    } else if k == jj {
                        if k + 1 <= ii {
                            assert(cur[k + 1] == pre.remove(ii)[k]);
                        }
                    } else {
                        assert(cur[k] == pre.remove(ii)[k - 1] && cur[k + 1] == pre.remove(ii)[k]);
                        assert(pre.remove(ii)[k - 1] == pre[k - 1] && pre.remove(ii)[k] == pre[k]);
                    }
                }
            }
            i += 1;
        }
    }
}

impl Tabular<CommandRow> for CommandTable {
    fn headers() -> Vec<String> {
        CommandTable::headers()
    }

    fn rows(&self) -> Vec<CommandRow> {
        let mut out: Vec<CommandRow> = Vec::new();
        let mut i: usize = 0;
        while i < self.0.len()
            decreases self.0@.len() - i,
        {
            out.push(self.0[i].clone());
            i += 1;
        }
        out
    }

    fn sort_by_col(&mut self, column_index: usize, reverse: bool) {
        self.sort_rows(column_index, reverse);
    }
}

} // verus!
