//! The action resolver: chords against the active mode.
//!
//! A [`Resolver`] owns a binding table and the name of the active mode,
//! normally `"normal"`.  Resolving a chord bound to a group switches the
//! active mode to that group for exactly the next lookup, after which the
//! mode returns to `"normal"` unconditionally, whether or not that lookup
//! found anything: a one-shot override, not a mode stack.

use crate::acts::Act;
use crate::binding::{spec_lookup, spec_mode, ChoiceMap, Choices, CommandGroup, CommandOptions};
use crate::command::{Command, Modifiers};
use vstd::prelude::*;

verus! {

/// What one chord resolved to.
#[derive(Debug)]
pub enum Resolution {
    /// The actions bound to the chord in the active mode.
    Acts(Vec<Act>),
    /// The chord opened the named group for the next lookup.
    Group(String),
    /// Nothing bound to the chord; a lookup miss is silently ignored.
    NotFound,
}

/// The entry a chord resolves to: the active mode's table looked up by
/// the chord, or nothing when the mode itself is unknown.
pub open spec fn spec_entry(
    ms: Seq<(String, Choices)>,
    active: Seq<char>,
    key: Seq<char>,
    mods: Modifiers,
) -> Option<CommandOptions> {
    match spec_mode(ms, active) {
        Some(choices) => spec_lookup(choices.0@, key, mods),
        None => None,
    }
}

/// The mode that is active after one lookup: the group's id when the
/// chord opened a group, `"normal"` otherwise, whatever the lookup found.
pub open spec fn spec_active_after(
    ms: Seq<(String, Choices)>,
    active: Seq<char>,
    key: Seq<char>,
    mods: Modifiers,
) -> Seq<char> {
    match spec_entry(ms, active, key, mods) {
        Some(opts) => match opts {
            CommandOptions::Commands(g) => g.id@,
            CommandOptions::Acts(_) => "normal"@,
        },
        None => "normal"@,
    }
}

/// The resolver: a binding table and the name of the active mode.
pub struct Resolver {
    /// The binding tables by mode name.
    pub table: ChoiceMap,
    /// The active mode, `"normal"` except for one lookup after a group
    /// chord.
    pub active: String,
}

impl Resolver {
    /// A resolver over the given table, starting in `"normal"` mode.
    pub fn new(table: ChoiceMap) -> (r: Self)
        ensures
            r.table == table,
            r.active@ == "normal"@,
    {
        Resolver { table, active: "normal".to_owned() }
    }

    /// Resolve one chord against the active mode and step the mode: to
    /// the group's id when the chord opened a group, back to `"normal"`
    /// otherwise.  The table itself never changes.
    pub fn resolve(&mut self, cmd: &Command) -> (r: Resolution)
        ensures
            final(self).table == old(self).table,
            final(self).active@ == spec_active_after(
                old(self).table.0@,
                old(self).active@,
                cmd.key@,
                cmd.mods,
            ),
            match spec_entry(old(self).table.0@, old(self).active@, cmd.key@, cmd.mods) {
                None => r is NotFound,
                Some(opts) => match opts {
                    CommandOptions::Acts(a) => r is Acts && r->Acts_0@ == a@,
                    CommandOptions::Commands(g) => r is Group && r->Group_0@ == g.id@,
                },
            },
    {
        let mut group_id: Option<String> = None;
        let mut result = Resolution::NotFound;
        match self.table.get_mode(self.active.as_str()) {
            Some(choices) => {
                match choices.get(cmd) {
                    Some(opts) => {
                        match opts {
                            CommandOptions::Acts(acts) => {
                                let mut copy: Vec<Act> = Vec::new();
                                let mut i: usize = 0;
                                while i < acts.len()
                                    invariant
                                        i <= acts@.len(),
                                        copy@ == acts@.take(i as int),
                                    decreases acts@.len() - i,
                                {
                                    copy.push(acts[i]);
                                    proof {
                                        assert(copy@ =~= acts@.take(i + 1));
                                    }
                                    i += 1;
                                }
                                proof {
                                    assert(acts@.take(acts@.len() as int) =~= acts@);
                                }
                                result = Resolution::Acts(copy);
                            },
                            CommandOptions::Commands(group) => {
                                group_id = Some(group.id.clone());
                                result = Resolution::Group(group.id.clone());
                            },
                        }
                    },
                    None => {},
                }
            },
            None => {},
        }
        match group_id {
            Some(id) => {
                self.active = id;
            },
            None => {
                self.active = "normal".to_owned();
            },
        }
        result
    }
}

/// Group indirection is a one-shot override: a chord bound to a group
/// reference switches the active mode to that group for exactly the next
/// lookup, which consults the group's own table; afterwards, short of the
/// second chord opening another group, the mode is `"normal"` again, so a
/// third lookup falls back to `"normal"`.
pub proof fn lemma_group_one_shot(
    ms: Seq<(String, Choices)>,
    k1: Seq<char>,
    m1: Modifiers,
    g: CommandGroup,
    k2: Seq<char>,
    m2: Modifiers,
)
    requires
        spec_entry(ms, "normal"@, k1, m1) == Some(CommandOptions::Commands(g)),
        !(spec_entry(ms, g.id@, k2, m2) matches Some(CommandOptions::Commands(_))),
    ensures
        spec_active_after(ms, "normal"@, k1, m1) == g.id@,
        (spec_mode(ms, g.id@) matches Some(t) ==> spec_entry(ms, g.id@, k2, m2) == spec_lookup(
            t.0@,
            k2,
            m2,
        )),
        spec_active_after(ms, g.id@, k2, m2) == "normal"@,
{
}

} // verus!
