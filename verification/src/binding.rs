//! The binding table: chords mapped to actions or named groups.
//!
//! A [`Choices`] table maps chords to binding entries; an entry is either
//! a list of action tokens or a reference to a named group, itself an
//! addressable table, which enables two-stroke commands.  A [`ChoiceMap`]
//! collects the tables under mode names, always including the `"normal"`
//! mode, the default entry point.  Tables are built from a plain
//! configuration value ([`KeyConfig`]); entries whose chord or action
//! token does not parse are dropped, never fatal, so an empty table is a
//! valid degraded state.  When two entries bind the same chord, the one
//! merged later wins: insertion puts newer entries in front and lookup
//! takes the first match.

use crate::acts::Act;
use crate::command::{spec_parse_cmd, Command, Modifiers};
use crate::text::keys_ci_eq;
use vstd::prelude::*;

verus! {

/// A named group of bindings: a chord bound to this entry opens the
/// group's own table for exactly the next chord.
#[derive(Debug, Clone)]
pub struct CommandGroup {
    /// The identifier naming the group's table in the configuration.
    pub id: String,
    /// Display name for the command window.
    pub name: String,
    /// The chord that opens the group.
    pub binding: Command,
    /// Hover or reader description.
    pub help: String,
    /// Stable row identity for displayable projections.
    pub row_id: u64,
}

impl CommandGroup {
    /// Display name of the group.
    pub fn name(&self) -> (r: String)
        ensures
            r@ == self.name@,
    {
        self.name.clone()
    }

    /// Build a group from one configuration entry: its binding text must
    /// parse as a chord, or the entry is dropped.
    pub fn from_entry(entry: &GroupEntry, row_id: u64) -> (r: Option<CommandGroup>)
        ensures
            match spec_parse_cmd(entry.binding@) {
                Some((key, mods)) => {
                    &&& r is Some
                    &&& r->Some_0.id@ == entry.id@
                    &&& r->Some_0.name@ == entry.name@
                    &&& r->Some_0.binding.key@ == key
                    &&& r->Some_0.binding.mods == mods
                    &&& r->Some_0.help@ == entry.help@
                    &&& r->Some_0.row_id == row_id
                },
                None => r is None,
            },
    {
        match crate::command::parse_cmd(binding_text(entry)) {
            Ok(binding) => Some(
                CommandGroup {
                    id: entry.id.clone(),
                    name: entry.name.clone(),
                    binding,
                    help: entry.help.clone(),
                    row_id,
                },
            ),
            Err(_) => None,
        }
    }
}

/// The binding text of a group entry.
fn binding_text(entry: &GroupEntry) -> (r: &str)
    ensures
        r@ == entry.binding@,
{
    entry.binding.as_str()
}

/// A binding entry: a list of actions, or a reference to a named group.
#[derive(Debug, Clone)]
pub enum CommandOptions {
    /// A named group reachable through this entry.
    Commands(CommandGroup),
    /// The actions the chord triggers.
    Acts(Vec<Act>),
}

impl CommandOptions {
    /// Append an action to an action-list entry; a group entry is left
    /// unchanged.
    pub fn with_act(&mut self, act: Act)
        ensures
            match *old(self) {
                CommandOptions::Acts(v) => {
                    &&& *final(self) is Acts
                    &&& final(self)->Acts_0@ == v@.push(act)
                },
                CommandOptions::Commands(_) => *final(self) == *old(self),
            },
    {
        match self {
            CommandOptions::Acts(acts) => acts.push(act),
            CommandOptions::Commands(_) => (),
        }
    }

    /// An entry holding exactly the given actions.
    pub fn from_acts(acts: Vec<Act>) -> (r: Self)
        ensures
            r == CommandOptions::Acts(acts),
    {
        CommandOptions::Acts(acts)
    }

    /// An entry holding one action.
    pub fn from_act(act: Act) -> (r: Self)
        ensures
            r is Acts,
            r->Acts_0@ == seq![act],
    {
        let mut acts: Vec<Act> = Vec::new();
        acts.push(act);
        proof {
            assert(acts@ =~= seq![act]);
        }
        CommandOptions::Acts(acts)
    }

    /// An entry referring to a group.
    pub fn from_group(group: CommandGroup) -> (r: Self)
        ensures
            r == CommandOptions::Commands(group),
    {
        CommandOptions::Commands(group)
    }

    /// Display label of the entry: the group's name, or the first
    /// action's label, or the no-op label for an empty action list.
    pub fn label(&self) -> (r: String)
        ensures
            (self is Commands ==> r@ == self->Commands_0.name@),
            (self is Acts && self->Acts_0@.len() > 0 ==> r@ == self->Acts_0@[0].spec_label()),
            (self is Acts && self->Acts_0@.len() == 0 ==> r@ == "Be"@),
    {
        match self {
            CommandOptions::Commands(group) => group.name.clone(),
            CommandOptions::Acts(acts) => {
                if acts.len() > 0 {
                    acts[0].label()
                } else {
                    "Be".to_owned()
                }
            },
        }
    }
}

/// A plain configuration entry: an action token name bound to chord text.
#[derive(Debug, Clone)]
pub struct CommandEntry {
    /// The action token's configuration name.
    pub name: String,
    /// The chord text the action is bound to.
    pub value: String,
}

/// A group's configuration: its identifier, display name, opening chord,
/// help text, and its own command entries.
#[derive(Debug, Clone)]
pub struct GroupEntry {
    /// Identifier of the group, also the name of its mode.
    pub id: String,
    /// Display name for the command window.
    pub name: String,
    /// Text of the chord that opens the group.
    pub binding: String,
    /// Hover or reader description.
    pub help: String,
    /// The group's own bindings.
    pub commands: Vec<CommandEntry>,
}

/// The whole configuration: the named groups and the flat command table
/// merged into the `"normal"` mode.
#[derive(Debug, Clone)]
pub struct KeyConfig {
    /// Named groups, each a GroupRef in `"normal"` plus its own mode.
    pub groups: Vec<GroupEntry>,
    /// Bindings merged directly into `"normal"`.
    pub commands: Vec<CommandEntry>,
}

/// First entry at or after `i` whose chord matches the key and modifiers.
pub open spec fn lookup_at(
    es: Seq<(Command, CommandOptions)>,
    key: Seq<char>,
    mods: Modifiers,
    i: int,
) -> Option<CommandOptions>
    decreases es.len() - i when 0 <= i <= es.len()
{
    if i >= es.len() {
        None
    } else if es[i].0.mods == mods && keys_ci_eq(es[i].0.key@, key) {
        Some(es[i].1)
    } else {
        lookup_at(es, key, mods, i + 1)
    }
}

/// The entry a chord resolves to in a table: the first match from the
/// front, so of two entries for one chord the later-inserted wins.
pub open spec fn spec_lookup(
    es: Seq<(Command, CommandOptions)>,
    key: Seq<char>,
    mods: Modifiers,
) -> Option<CommandOptions> {
    lookup_at(es, key, mods, 0)
}

/// A table of bindings for one mode, newest entry first.
#[derive(Debug, Clone)]
pub struct Choices(pub Vec<(Command, CommandOptions)>);

impl Choices {
    /// The empty table.
    pub fn new() -> (r: Self)
        ensures
            r.0@.len() == 0,
    {
        Choices(Vec::new())
    }

    /// The entries of the table.
    pub fn value(&self) -> (r: &Vec<(Command, CommandOptions)>)
        ensures
            r@ == self.0@,
    {
        &self.0
    }

    /// The entry the chord resolves to, if any.
    pub fn get(&self, cmd: &Command) -> (r: Option<&CommandOptions>)
        ensures
            match r {
                Some(v) => spec_lookup(self.0@, cmd.key@, cmd.mods) == Some(*v),
                None => spec_lookup(self.0@, cmd.key@, cmd.mods) is None,
            },
    {
        let mut i: usize = 0;
        while i < self.0.len()
            invariant
                i <= self.0@.len(),
                lookup_at(self.0@, cmd.key@, cmd.mods, 0) == lookup_at(
                    self.0@,
                    cmd.key@,
                    cmd.mods,
                    i as int,
                ),
            decreases self.0@.len() - i,
        {
            let entry = &self.0[i];
            if entry.0.act(cmd) {
                return Some(&entry.1);
            }
            i += 1;
        }
        None
    }

    /// Bind a chord: the new entry goes in front, so it wins over any
    /// older binding of the same chord.
    pub fn insert(&mut self, cmd: Command, opts: CommandOptions)
        ensures
            final(self).0@ == seq![(cmd, opts)] + old(self).0@,
    {
        let entry = (cmd, opts);
        let ghost e = entry;
        self.0.insert(0, entry);
        proof {
            assert(self.0@ =~= seq![e] + old(self).0@);
        }
    }
}

/// Whether a command entry survives construction: its action token is
/// known and its chord text parses.
pub open spec fn entry_valid(e: CommandEntry) -> bool {
    Act::spec_from_cmd(e.name@) is Some && spec_parse_cmd(e.value@) is Some
}

/// How many of the first `j` command entries are valid.
pub open spec fn nvalid(es: Seq<CommandEntry>, j: int) -> int
    decreases j,
{
    if j <= 0 {
        0
    } else {
        nvalid(es, j - 1) + if entry_valid(es[j - 1]) {
            1int
        } else {
            0int
        }
    }
}

/// The binding a valid command entry produces: its parsed chord mapped to
/// the one action its name resolves to.
pub open spec fn entry_binds(e: CommandEntry, b: (Command, CommandOptions)) -> bool {
    &&& spec_parse_cmd(e.value@) is Some
    &&& b.0.key@ == spec_parse_cmd(e.value@)->Some_0.0
    &&& b.0.mods == spec_parse_cmd(e.value@)->Some_0.1
    &&& b.1 is Acts
    &&& b.1->Acts_0@ == seq![Act::spec_from_cmd(e.name@)->Some_0]
}

/// The table built from a list of command entries: exactly the valid
/// entries, newest in front, so entry `j` sits at distance `nvalid(j)`
/// from the back.
pub open spec fn acts_table(t: Seq<(Command, CommandOptions)>, es: Seq<CommandEntry>) -> bool {
    &&& t.len() == nvalid(es, es.len() as int)
    &&& forall|j: int|
        0 <= j < es.len() && entry_valid(es[j]) ==> entry_binds(
            #[trigger] es[j],
            t[t.len() - 1 - nvalid(es, j)],
        )
}

/// A valid-entry count never exceeds the number of entries counted.
proof fn lemma_nvalid_bounds(es: Seq<CommandEntry>, b: int)
    requires
        0 <= b,
    ensures
        0 <= nvalid(es, b) <= b,
    decreases b,
{
    if b > 0 {
        lemma_nvalid_bounds(es, b - 1);
    }
}

/// Valid-entry counts grow by at most one per entry, and strictly across
/// a valid entry.
proof fn lemma_nvalid_le(es: Seq<CommandEntry>, a: int, b: int)
    requires
        0 <= a <= b,
    ensures
        nvalid(es, a) <= nvalid(es, b) <= nvalid(es, a) + (b - a),
        a < b && entry_valid(es[a]) ==> nvalid(es, a) < nvalid(es, b),
    decreases b - a,
{
    if a < b {
        lemma_nvalid_le(es, a + 1, b);
    }
}

/// Whether a group entry survives construction: its binding text parses.
pub open spec fn group_valid(g: GroupEntry) -> bool {
    spec_parse_cmd(g.binding@) is Some
}

/// How many of the first `j` group entries are valid.
pub open spec fn gvalid(gs: Seq<GroupEntry>, j: int) -> int
    decreases j,
{
    if j <= 0 {
        0
    } else {
        gvalid(gs, j - 1) + if group_valid(gs[j - 1]) {
            1int
        } else {
            0int
        }
    }
}

/// The binding a valid group entry produces: its parsed chord mapped to a
/// group reference carrying the entry's fields and the given row.
pub open spec fn group_binds(g: GroupEntry, row: u64, b: (Command, CommandOptions)) -> bool {
    &&& spec_parse_cmd(g.binding@) is Some
    &&& b.0.key@ == spec_parse_cmd(g.binding@)->Some_0.0
    &&& b.0.mods == spec_parse_cmd(g.binding@)->Some_0.1
    &&& b.1 is Commands
    &&& b.1->Commands_0.id@ == g.id@
    &&& b.1->Commands_0.name@ == g.name@
    &&& b.1->Commands_0.help@ == g.help@
    &&& b.1->Commands_0.row_id == row
    &&& b.1->Commands_0.binding.key@ == spec_parse_cmd(g.binding@)->Some_0.0
    &&& b.1->Commands_0.binding.mods == spec_parse_cmd(g.binding@)->Some_0.1
}

/// A valid-group count never exceeds the number of groups counted.
proof fn lemma_gvalid_bounds(gs: Seq<GroupEntry>, b: int)
    requires
        0 <= b,
    ensures
        0 <= gvalid(gs, b) <= b,
    decreases b,
{
    if b > 0 {
        lemma_gvalid_bounds(gs, b - 1);
    }
}

proof fn lemma_gvalid_le(gs: Seq<GroupEntry>, a: int, b: int)
    requires
        0 <= a <= b,
    ensures
        gvalid(gs, a) <= gvalid(gs, b) <= gvalid(gs, a) + (b - a),
        a < b && group_valid(gs[a]) ==> gvalid(gs, a) < gvalid(gs, b),
    decreases b - a,
{
    if a < b {
        lemma_gvalid_le(gs, a + 1, b);
    }
}

impl Choices {
    /// Build a table from command entries: each valid entry binds its
    /// parsed chord to its one action; invalid entries are dropped.
    pub fn from_entries(entries: &Vec<CommandEntry>) -> (r: Choices)
        ensures
            acts_table(r.0@, entries@),
    {
        let mut out = Choices::new();
        let mut i: usize = 0;
        while i < entries.len()
            invariant
                i <= entries@.len(),
                out.0@.len() == nvalid(entries@, i as int),
                forall|j: int|
                    0 <= j < i && entry_valid(entries@[j]) ==> entry_binds(
                        #[trigger] entries@[j],
                        out.0@[out.0@.len() - 1 - nvalid(entries@, j)],
                    ),
            decreases entries@.len() - i,
        {
            proof {
                lemma_nvalid_le(entries@, i as int, i + 1);
            }
            let e = &entries[i];
            match Act::from_cmd(e.name.as_str()) {
                Some(act) => {
                    match crate::command::parse_cmd(e.value.as_str()) {
                        Ok(cmd) => {
                            out.insert(cmd, CommandOptions::from_act(act));
                            proof {
                                assert forall|j: int|
                                    0 <= j < i + 1 && entry_valid(entries@[j]) implies entry_binds(
                                    #[trigger] entries@[j],
                                    out.0@[out.0@.len() - 1 - nvalid(entries@, j)],
                                ) by {
                                    lemma_nvalid_bounds(entries@, j);
                                    lemma_nvalid_le(entries@, j, i as int);
                                    if j < i {
                                        lemma_nvalid_le(entries@, j + 1, i as int);
                                    }
                                }
                            }
                        },
                        Err(_) => {},
                    }
                },
                None => {},
            }
            i += 1;
        }
        out
    }

    /// Add a group reference for each valid group entry, in front of the
    /// existing bindings; entry `j` gets row `j`.
    pub fn command_group(&mut self, groups: &Vec<GroupEntry>)
        ensures
            final(self).0@.len() == old(self).0@.len() + gvalid(groups@, groups@.len() as int),
            forall|k: int|
                0 <= k < old(self).0@.len() ==> final(self).0@[final(self).0@.len() - old(
                    self,
                ).0@.len() + k] == old(self).0@[k],
            forall|j: int|
                0 <= j < groups@.len() && group_valid(groups@[j]) ==> group_binds(
                    #[trigger] groups@[j],
                    j as u64,
                    final(self).0@[gvalid(groups@, groups@.len() as int) - 1 - gvalid(groups@, j)],
                ),
    {
        let base_len = self.0.len();
        let ghost base = self.0@;
        let mut j: usize = 0;
        while j < groups.len()
            invariant
                j <= groups@.len(),
                self.0@.len() == base.len() + gvalid(groups@, j as int),
                forall|k: int|
                    0 <= k < base.len() ==> self.0@[self.0@.len() - base.len() + k] == base[k],
                forall|q: int|
                    0 <= q < j && group_valid(groups@[q]) ==> group_binds(
                        #[trigger] groups@[q],
                        q as u64,
                        self.0@[gvalid(groups@, j as int) - 1 - gvalid(groups@, q)],
                    ),
            decreases groups@.len() - j,
        {
            proof {
                lemma_gvalid_le(groups@, j as int, j + 1);
            }
            match CommandGroup::from_entry(&groups[j], j as u64) {
                Some(group) => {
                    let ghost grp = group;
                    let key = group.binding.clone();
                    let ghost k = key;
                    let ghost pre_view = self.0@;
                    self.insert(key, CommandOptions::from_group(group));
                    proof {
                        assert(self.0@ == seq![(k, CommandOptions::Commands(grp))] + pre_view);
                        assert forall|kk: int| 0 <= kk < base.len() implies self.0@[self.0@.len()
                            - base.len() + kk] == base[kk] by {
                            lemma_gvalid_bounds(groups@, j as int);
                            assert(self.0@[self.0@.len() - base.len() + kk] == pre_view[pre_view.len()
                                - base.len() + kk]);
                        }
                        assert forall|q: int|
                            0 <= q < j + 1 && group_valid(groups@[q]) implies group_binds(
                            #[trigger] groups@[q],
                            q as u64,
                            self.0@[gvalid(groups@, j + 1) - 1 - gvalid(groups@, q)],
                        ) by {
                            lemma_gvalid_bounds(groups@, q);
                            lemma_gvalid_le(groups@, q, j as int);
                            if q < j {
                                lemma_gvalid_le(groups@, q + 1, j as int);
                                assert(self.0@[gvalid(groups@, j + 1) - 1 - gvalid(groups@, q)]
                                    == pre_view[gvalid(groups@, j as int) - 1 - gvalid(groups@, q)]);
                            } else {
                                assert(gvalid(groups@, j + 1) - 1 - gvalid(groups@, q) == 0);
                                assert(self.0@[0] == (k, CommandOptions::Commands(grp)));
                            }
                        }
                    }
                },
                None => {},
            }
            j += 1;
        }
        proof {
            lemma_gvalid_le(groups@, 0, groups@.len() as int);
        }
    }
}

/// The action a named key triggers: its own token, except the no-op
/// key, which triggers the bare no-op.
pub open spec fn named_token(a: crate::acts::NamedAct) -> Act {
    if a == crate::acts::NamedAct::Be {
        Act::Be
    } else {
        Act::Named(a)
    }
}

/// The named key with the given index, in binding order.
pub open spec fn named_at(k: int) -> crate::acts::NamedAct {
    if k == 0 {
        crate::acts::NamedAct::Enter
    } else if k == 1 {
        crate::acts::NamedAct::Escape
    } else if k == 2 {
        crate::acts::NamedAct::ArrowUp
    } else if k == 3 {
        crate::acts::NamedAct::ArrowDown
    } else if k == 4 {
        crate::acts::NamedAct::ArrowLeft
    } else if k == 5 {
        crate::acts::NamedAct::ArrowRight
    } else {
        crate::acts::NamedAct::Be
    }
}

/// A binding of one named key to its own action.
pub open spec fn named_binding(b: (Command, CommandOptions), a: crate::acts::NamedAct) -> bool {
    &&& b.0.key@ == a.spec_cmd()
    &&& b.0.mods == crate::command::mods_none()
    &&& b.1 is Acts
    &&& b.1->Acts_0@ == seq![named_token(a)]
}

impl Choices {
    /// Bind every named key to its own action, in front of the existing
    /// bindings: enter triggers the enter action, the arrows their
    /// motions, and the no-op key nothing.
    pub fn named(&mut self)
        ensures
            final(self).0@.len() == old(self).0@.len() + 7,
            forall|k: int|
                0 <= k < 7 ==> named_binding(#[trigger] final(self).0@[k], named_at(6 - k)),
            forall|k: int|
                0 <= k < old(self).0@.len() ==> final(self).0@[k + 7] == old(self).0@[k],
    {
        let acts = crate::acts::NamedAct::variants();
        let ghost base = self.0@;
        let mut i: usize = 0;
        while i < acts.len()
            invariant
                acts@.len() == 7,
                forall|q: int| 0 <= q < 7 ==> (#[trigger] acts@[q]).spec_idx() == q,
                i <= 7,
                self.0@.len() == base.len() + i,
                forall|k: int|
                    0 <= k < i ==> named_binding(#[trigger] self.0@[k], named_at(i - 1 - k)),
                forall|k: int| 0 <= k < base.len() ==> self.0@[k + i] == base[k],
            decreases acts@.len() - i,
        {
            let act = acts[i];
            proof {
                assert(acts@[i as int].spec_idx() == i as int);
                assert(act == named_at(i as int));
            }
            let chord = Command::from_named(&act);
            let token = match act {
                crate::acts::NamedAct::Be => Act::Be,
                other => Act::Named(other),
            };
            let ghost pre = self.0@;
            let ghost ch = chord;
            let opts = CommandOptions::from_act(token);
            let ghost op = opts;
            self.insert(chord, opts);
            proof {
                assert(self.0@ == seq![(ch, op)] + pre);
                assert(named_binding(self.0@[0], named_at(i as int)));
                assert forall|k: int|
                    0 <= k < i + 1 implies named_binding(
                    #[trigger] self.0@[k],
                    named_at(i + 1 - 1 - k),
                ) by {
                    if k > 0 {
                        assert(self.0@[k] == pre[k - 1]);
                    }
                }
                assert forall|k: int|
                    0 <= k < base.len() implies self.0@[k + (i + 1)] == base[k] by {
                    assert(self.0@[k + i + 1] == pre[k + i]);
                }
            }
            i += 1;
        }
    }
}

/// First mode at or after `i` with the given name.
pub open spec fn mode_at(ms: Seq<(String, Choices)>, name: Seq<char>, i: int) -> Option<Choices>
    decreases ms.len() - i when 0 <= i <= ms.len()
{
    if i >= ms.len() {
        None
    } else if ms[i].0@ == name {
        Some(ms[i].1)
    } else {
        mode_at(ms, name, i + 1)
    }
}

/// The table registered under a mode name, first match from the front.
pub open spec fn spec_mode(ms: Seq<(String, Choices)>, name: Seq<char>) -> Option<Choices> {
    mode_at(ms, name, 0)
}

/// A context map: binding tables under mode names, with `"normal"` as
/// the default entry point.
#[derive(Debug, Clone)]
pub struct ChoiceMap(pub Vec<(String, Choices)>);

impl ChoiceMap {
    /// The empty map: a valid degraded state with nothing bound.
    pub fn new() -> (r: Self)
        ensures
            r.0@.len() == 0,
    {
        ChoiceMap(Vec::new())
    }

    /// The table registered under a mode name, if any.
    pub fn get_mode(&self, name: &str) -> (r: Option<&Choices>)
        ensures
            match r {
                Some(c) => spec_mode(self.0@, name@) == Some(*c),
                None => spec_mode(self.0@, name@) is None,
            },
    {
        let mut i: usize = 0;
        while i < self.0.len()
            invariant
                i <= self.0@.len(),
                mode_at(self.0@, name@, 0) == mode_at(self.0@, name@, i as int),
            decreases self.0@.len() - i,
        {
            let entry = &self.0[i];
            if crate::text::str_eq(entry.0.as_str(), name) {
                return Some(&entry.1);
            }
            i += 1;
        }
        None
    }

    /// Register a table under a mode name, in front, so it wins over any
    /// older table of the same name.
    pub fn insert_mode(&mut self, name: String, choices: Choices)
        ensures
            final(self).0@ == seq![(name, choices)] + old(self).0@,
    {
        let entry = (name, choices);
        let ghost e = entry;
        self.0.insert(0, entry);
        proof {
            assert(self.0@ =~= seq![e] + old(self).0@);
        }
    }

    /// Build the whole map from a configuration value.  The `"normal"`
    /// mode is always present, at the front: the commands table merged
    /// behind one group reference per valid group.  Each valid group is
    /// also registered as its own addressable mode holding its own
    /// command entries.  Invalid entries are dropped; nothing is fatal.
    pub fn from_config(cfg: &KeyConfig) -> (r: ChoiceMap)
        ensures
            r.0@.len() == 1 + gvalid(cfg.groups@, cfg.groups@.len() as int),
            r.0@[0].0@ == "normal"@,
            ({
                let t = r.0@[0].1.0@;
                let ng = gvalid(cfg.groups@, cfg.groups@.len() as int);
                &&& t.len() == ng + nvalid(cfg.commands@, cfg.commands@.len() as int)
                &&& forall|j: int|
                    0 <= j < cfg.commands@.len() && entry_valid(cfg.commands@[j]) ==> entry_binds(
                        #[trigger] cfg.commands@[j],
                        t[t.len() - 1 - nvalid(cfg.commands@, j)],
                    )
                &&& forall|j: int|
                    0 <= j < cfg.groups@.len() && group_valid(cfg.groups@[j]) ==> group_binds(
                        #[trigger] cfg.groups@[j],
                        j as u64,
                        t[ng - 1 - gvalid(cfg.groups@, j)],
                    )
            }),
            forall|j: int|
                0 <= j < cfg.groups@.len() && group_valid(#[trigger] cfg.groups@[j]) ==> ({
                    let e = r.0@[1 + gvalid(cfg.groups@, cfg.groups@.len() as int) - 1 - gvalid(
                        cfg.groups@,
                        j,
                    )];
                    &&& e.0@ == cfg.groups@[j].id@
                    &&& acts_table(e.1.0@, cfg.groups@[j].commands@)
                }),
    {
        let mut normal = Choices::from_entries(&cfg.commands);
        let ghost fe = normal.0@;
        normal.command_group(&cfg.groups);
        let ghost nview = normal.0@;
        let mut modes = ChoiceMap::new();
        let mut j: usize = 0;
        while j < cfg.groups.len()
            invariant
                j <= cfg.groups@.len(),
                modes.0@.len() == gvalid(cfg.groups@, j as int),
                forall|q: int|
                    0 <= q < j && group_valid(#[trigger] cfg.groups@[q]) ==> ({
                        let e = modes.0@[gvalid(cfg.groups@, j as int) - 1 - gvalid(
                            cfg.groups@,
                            q,
                        )];
                        &&& e.0@ == cfg.groups@[q].id@
                        &&& acts_table(e.1.0@, cfg.groups@[q].commands@)
                    }),
            decreases cfg.groups@.len() - j,
        {
            proof {
                lemma_gvalid_le(cfg.groups@, j as int, j + 1);
            }
            let g = &cfg.groups[j];
            if crate::command::parse_cmd(binding_text(g)).is_ok() {
                let table = Choices::from_entries(&g.commands);
                modes.insert_mode(g.id.clone(), table);
                proof {
                    assert forall|q: int|
                        0 <= q < j + 1 && group_valid(#[trigger] cfg.groups@[q]) implies ({
                        let e = modes.0@[gvalid(cfg.groups@, j + 1) - 1 - gvalid(cfg.groups@, q)];
                        &&& e.0@ == cfg.groups@[q].id@
                        &&& acts_table(e.1.0@, cfg.groups@[q].commands@)
                    }) by {
                        lemma_gvalid_bounds(cfg.groups@, q);
                        lemma_gvalid_le(cfg.groups@, q, j as int);
                        if q < j {
                            lemma_gvalid_le(cfg.groups@, q + 1, j as int);
                        }
                    }
                }
            }
            j += 1;
        }
        let ghost pre = modes.0@;
        let name = "normal".to_owned();
        let ghost nm = name;
        let ghost nval = normal;
        modes.insert_mode(name, normal);
        proof {
            let gs = cfg.groups@;
            let cs = cfg.commands@;
            let ng = gvalid(gs, gs.len() as int);
            assert(modes.0@ == seq![(nm, nval)] + pre);
            assert(modes.0@[0] == (nm, nval));
            lemma_gvalid_bounds(gs, gs.len() as int);
            lemma_nvalid_bounds(cs, cs.len() as int);
            assert(nval.0@ == nview);
            assert(nview.len() == ng + nvalid(cs, cs.len() as int));
            assert forall|j: int|
                0 <= j < cs.len() && entry_valid(cs[j]) implies entry_binds(
                #[trigger] cs[j],
                nview[nview.len() - 1 - nvalid(cs, j)],
            ) by {
                lemma_nvalid_bounds(cs, j);
                lemma_nvalid_le(cs, j, cs.len() as int);
                let kk = fe.len() - 1 - nvalid(cs, j);
                assert(entry_binds(cs[j], fe[kk]));
                assert(nview[nview.len() - fe.len() + kk] == fe[kk]);
                assert(nview.len() - fe.len() + kk == nview.len() - 1 - nvalid(cs, j));
            }
            assert forall|j2: int|
                0 <= j2 < gs.len() && group_valid(#[trigger] gs[j2]) implies ({
                let e = modes.0@[1 + ng - 1 - gvalid(gs, j2)];
                &&& e.0@ == gs[j2].id@
                &&& acts_table(e.1.0@, gs[j2].commands@)
            }) by {
                lemma_gvalid_bounds(gs, j2);
                lemma_gvalid_le(gs, j2, gs.len() as int);
                assert(modes.0@[1 + ng - 1 - gvalid(gs, j2)] == pre[ng - 1 - gvalid(gs, j2)]);
            }
        }
        modes
    }
}

/// The active command mapping: currently one variant holding the whole
/// context map.
#[derive(Debug, Clone)]
pub enum CommandMode {
    /// The context map in its ordinary state.
    Normal(ChoiceMap),
}

impl CommandMode {
    /// An empty mapping: the degraded state when no configuration loads.
    pub fn new() -> (r: Self)
        ensures
            r is Normal,
            r->Normal_0.0@.len() == 0,
    {
        CommandMode::Normal(ChoiceMap::new())
    }

    /// The context map inside.
    pub fn choices(&self) -> (r: &ChoiceMap)
        ensures
            *r == self->Normal_0,
    {
        match self {
            CommandMode::Normal(choices) => choices,
        }
    }
}

} // verus!

