//! Identifier sources: a monotone counter and a unique name pool.
//!
//! Tabs and table widgets need identifiers that never collide.  The
//! counter issues increasing numbers; the name pool draws readable names
//! from a generator and guarantees uniqueness by tracking every name it
//! has ever issued: a drawn name that collides is redrawn a few times,
//! and failing that the pool falls back to a name longer than every name
//! it has issued, which can collide with nothing.

use vstd::prelude::*;

verus! {

/// Longest name the generator can draw: two dictionary words and a
/// four-digit number, with separators.
pub const NAME_DRAW_MAX: usize = 40;

/// How many names one pool can issue: a machine limit, far beyond any
/// session.
pub const NAME_POOL_CAP: usize = 0x7fff_ffff;

/// How an [`Identifier`] makes identifiers.
#[derive(Debug, Copy, Clone, PartialEq, Eq, Structural)]
pub enum Strategy {
    /// Issue increasing numbers.
    Counter,
    /// Issue unique readable names.
    Name,
}

impl Default for Strategy {
    fn default() -> (r: Self)
        ensures
            r == Strategy::Counter,
    {
        Strategy::Counter
    }
}

/// A monotone counter.
#[derive(Debug, Copy, Clone, PartialEq, Eq, Structural)]
pub struct Counter(pub usize);

impl Default for Counter {
    fn default() -> (r: Self)
        ensures
            r == Counter(0),
    {
        Counter(0)
    }
}

impl Counter {
    /// The last number issued.
    pub fn value(&self) -> (r: usize)
        ensures
            r == self.0,
    {
        self.0
    }

    /// Issue the next number.
    pub fn inc(&mut self) -> (r: usize)
        requires
            old(self).0 < usize::MAX,
        ensures
            final(self).0 == old(self).0 + 1,
            r == final(self).0,
    {
        self.0 = self.0 + 1;
        self.value()
    }
}

/// Relies on `names::Generator` with `Name::Numbered` naming: each draw
/// yields a random adjective-noun-number name.  The word lists are fixed
/// dictionaries (longest words 15 and 14 characters) and the number has
/// four digits, so a drawn name stays within [`NAME_DRAW_MAX`]
/// characters; nothing else is promised of the value.
#[verifier::external_body]
fn draw_name() -> (r: String)
    ensures
        r@.len() <= NAME_DRAW_MAX,
{
    let mut generator = names::Generator::with_naming(names::Name::Numbered);
    generator.next().unwrap_or_default()
}

/// No issued name reads the same as `n`.
pub open spec fn fresh_name(names: Seq<String>, n: Seq<char>) -> bool {
    forall|i: int| 0 <= i < names.len() ==> names[i]@ != n
}

/// No two issued names read the same.
pub open spec fn names_distinct(names: Seq<String>) -> bool {
    forall|i: int, j: int| 0 <= i < j < names.len() ==> names[i]@ != names[j]@
}

/// Well-formed pool: not over the cap, and the name at position `i` no
/// longer than [`NAME_DRAW_MAX`] plus `i`, which keeps the fall-back name
/// constructible.
pub open spec fn wf_names(names: Seq<String>) -> bool {
    &&& names.len() <= NAME_POOL_CAP
    &&& forall|i: int| 0 <= i < names.len() ==> (#[trigger] names[i]@.len()) <= NAME_DRAW_MAX + i
}

/// Pushing a fresh name keeps issued names pairwise distinct.
proof fn lemma_push_fresh_distinct(names: Seq<String>, n: String)
    requires
        names_distinct(names),
        fresh_name(names, n@),
    ensures
        names_distinct(names.push(n)),
{
    let pushed = names.push(n);
    assert forall|i: int, j: int| 0 <= i < j < pushed.len() implies pushed[i]@ != pushed[j]@ by {
        if j < names.len() {
            assert(pushed[i] == names[i] && pushed[j] == names[j]);
        } else {
            assert(pushed[j] == n);
            assert(pushed[i] == names[i]);
        }
    }
}

/// Whether the pool already issued a name reading like this one.
fn contains_name(names: &Vec<String>, name: &String) -> (r: bool)
    ensures
        r == !fresh_name(names@, name@),
{
    let mut i: usize = 0;
    while i < names.len()
        invariant
            i <= names@.len(),
            forall|j: int| 0 <= j < i ==> names@[j]@ != name@,
        decreases names@.len() - i,
    {
        let cand = &names[i];
        if crate::text::str_eq(cand.as_str(), name.as_str()) {
            return true;
        }
        i += 1;
    }
    false
}

/// The length of the longest issued name.
fn max_name_len(names: &Vec<String>) -> (m: usize)
    ensures
        forall|i: int| 0 <= i < names@.len() ==> (#[trigger] names@[i]@.len()) <= m,
        names@.len() > 0 ==> exists|i: int| 0 <= i < names@.len() && names@[i]@.len() == m,
        names@.len() == 0 ==> m == 0,
{
    let mut m: usize = 0;
    let mut i: usize = 0;
    while i < names.len()
        invariant
            i <= names@.len(),
            forall|j: int| 0 <= j < i ==> (#[trigger] names@[j]@.len()) <= m,
            i > 0 ==> exists|j: int| 0 <= j < i && names@[j]@.len() == m,
            i == 0 ==> m == 0,
        decreases names@.len() - i,
    {
        let l = names[i].as_str().unicode_len();
        if l > m || i == 0 {
            m = l;
            proof {
                assert(names@[i as int]@.len() == m);
            }
        }
        i += 1;
    }
    m
}

/// A pool of issued names, each unique among all previously issued.
#[derive(Debug, Clone)]
pub struct Name(Vec<String>);

impl View for Name {
    type V = Seq<String>;

    closed spec fn view(&self) -> Seq<String> {
        self.0@
    }
}

impl Default for Name {
    fn default() -> (r: Self)
        ensures
            r@.len() == 0,
            wf_names(r@),
    {
        Name(Vec::new())
    }
}

impl Name {
    /// The empty pool.
    pub fn new() -> (r: Self)
        ensures
            r@.len() == 0,
            wf_names(r@),
    {
        Name(Vec::new())
    }

    /// The names issued so far, oldest first.
    pub fn issued(&self) -> (r: &Vec<String>)
        ensures
            r@ == self@,
    {
        &self.0
    }

    /// Issue a name that no earlier call has issued: draw until fresh,
    /// and past a few collisions fall back to a name longer than every
    /// issued one.
    pub fn new_name(&mut self) -> (r: String)
        requires
            wf_names(old(self)@),
            old(self)@.len() < NAME_POOL_CAP,
        ensures
            fresh_name(old(self)@, r@),
            final(self)@ == old(self)@.push(r),
            wf_names(final(self)@),
            names_distinct(old(self)@) ==> names_distinct(final(self)@),
    {
        let mut attempts: usize = 8;
        while attempts > 0
            invariant
                wf_names(old(self)@),
                old(self)@.len() < NAME_POOL_CAP,
                self@ == old(self)@,
            decreases attempts,
        {
            let name = draw_name();
            if !contains_name(&self.0, &name) {
                let out = name.clone();
                let ghost nm = name;
                self.0.push(name);
                proof {
                    assert(self@ == old(self)@.push(nm));
                    assert(wf_names(self@)) by {
                        assert(forall|i: int|
                            0 <= i < old(self)@.len() ==> self@[i] == old(self)@[i]);
                        assert(self@[self@.len() - 1]@.len() <= NAME_DRAW_MAX);
                    }
                    if names_distinct(old(self)@) {
                        lemma_push_fresh_distinct(old(self)@, nm);
                    }
                }
                return out;
            }
            attempts -= 1;
        }
        let longest = max_name_len(&self.0);
        proof {
            if self.0@.len() > 0 {
                let w = choose|i: int|
                    0 <= i < self.0@.len() && self.0@[i]@.len() == longest;
                assert(self.0@[w]@.len() <= NAME_DRAW_MAX + w);
            }
            assert(longest < usize::MAX);
        }
        let mut fallback = String::new();
        let mut flen: usize = 0;
        while flen <= longest
            invariant
                fallback@.len() == flen,
                flen <= longest + 1,
                longest < usize::MAX,
            decreases longest + 1 - flen,
        {
            fallback.append("x");
            proof {
                reveal_strlit("x");
            }
            flen += 1;
        }
        proof {
            assert(fallback@.len() == longest + 1);
            assert(fresh_name(self@, fallback@)) by {
                assert(forall|i: int|
                    0 <= i < self@.len() ==> (#[trigger] self@[i]@.len()) <= longest);
            }
        }
        let out = fallback.clone();
        let ghost nm = fallback;
        self.0.push(fallback);
        proof {
            assert(self@ == old(self)@.push(nm));
            assert(wf_names(self@)) by {
                assert(forall|i: int| 0 <= i < old(self)@.len() ==> self@[i] == old(self)@[i]);
                if old(self)@.len() > 0 {
                    let w = choose|i: int|
                        0 <= i < old(self)@.len() && old(self)@[i]@.len() == longest;
                    assert(old(self)@[w]@.len() <= NAME_DRAW_MAX + w);
                    assert(self@[self@.len() - 1]@.len() == longest + 1);
                } else {
                    assert(self@[self@.len() - 1]@.len() == 1);
                }
            }
            if names_distinct(old(self)@) {
                lemma_push_fresh_distinct(old(self)@, nm);
            }
        }
        out
    }

    /// Issue `count` names, each unique among all previously issued and
    /// among one another.
    pub fn new_names(&mut self, count: usize) -> (r: Vec<String>)
        requires
            wf_names(old(self)@),
            old(self)@.len() + count <= NAME_POOL_CAP,
        ensures
            r@.len() == count,
            final(self)@ == old(self)@ + r@,
            wf_names(final(self)@),
            names_distinct(old(self)@) ==> names_distinct(final(self)@),
    {
        let mut out: Vec<String> = Vec::new();
        while out.len() < count
            invariant
                out@.len() <= count,
                old(self)@.len() + count <= NAME_POOL_CAP,
                self@ == old(self)@ + out@,
                wf_names(self@),
                names_distinct(old(self)@) ==> names_distinct(self@),
            decreases count - out@.len(),
        {
            let name = self.new_name();
            out.push(name);
            proof {
                assert(self@ =~= old(self)@ + out@);
            }
        }
        out
    }
}

/// An identifier source combining a counter and a name pool under a
/// strategy.
#[derive(Debug, Clone)]
pub struct Identifier {
    /// Source of increasing numbers.
    pub counter: Counter,
    /// Source of unique names.
    pub name: Name,
    /// Which source `number` favours.
    pub strategy: Strategy,
}

impl Default for Identifier {
    fn default() -> (r: Self)
        ensures
            r.counter == Counter(0),
            r.name@.len() == 0,
            wf_names(r.name@),
            r.strategy == Strategy::Counter,
    {
        Identifier { counter: Counter(0), name: Name::new(), strategy: Strategy::Counter }
    }
}

impl Identifier {
    /// Issue the next number.
    pub fn number(&mut self) -> (r: usize)
        requires
            old(self).counter.0 < usize::MAX,
        ensures
            final(self).counter.0 == old(self).counter.0 + 1,
            r == final(self).counter.0,
            final(self).name == old(self).name,
            final(self).strategy == old(self).strategy,
    {
        match self.strategy {
            Strategy::Counter => self.counter.inc(),
            Strategy::Name => self.counter.inc(),
        }
    }

    /// Issue a unique name.
    pub fn name(&mut self) -> (r: String)
        requires
            wf_names(old(self).name@),
            old(self).name@.len() < NAME_POOL_CAP,
        ensures
            fresh_name(old(self).name@, r@),
            final(self).name@ == old(self).name@.push(r),
            wf_names(final(self).name@),
            names_distinct(old(self).name@) ==> names_distinct(final(self).name@),
            final(self).counter == old(self).counter,
            final(self).strategy == old(self).strategy,
    {
        self.name.new_name()
    }
}

} // verus!
