//! Key chords and the chord grammar.
//!
//! A [`Command`] is the atomic unit of input matching: a base key plus a
//! set of modifiers.  Chord text follows a small grammar: zero or more
//! bracketed modifier tokens (`<control>`, `<cr>`, `<alt>`, `<shift>`,
//! `<super>`), each optionally separated by `+` and surrounding spaces,
//! followed by exactly one alphanumeric base token.  An unknown bracketed
//! token contributes no modifier but still consumes its bracket.  A base
//! token without a lower-case ASCII letter forces the shift modifier on,
//! whether or not `<shift>` was written.
//!
//! Two chords are equal when their modifier sets are equal and their base
//! keys agree without regard to ASCII letter case.

use crate::acts::NamedAct;
use crate::text::keys_ci_eq;
use vstd::prelude::*;

verus! {

/// A set of four independent modifier flags.
#[derive(Debug, Copy, Clone, PartialEq, Eq, Structural)]
pub struct Modifiers {
    pub shift_key: bool,
    pub control_key: bool,
    pub alt_key: bool,
    pub super_key: bool,
}

/// The empty modifier set.
pub open spec fn mods_none() -> Modifiers {
    Modifiers { shift_key: false, control_key: false, alt_key: false, super_key: false }
}

/// Union of two modifier sets: a flag is set when either side sets it.
pub open spec fn or_mods(a: Modifiers, b: Modifiers) -> Modifiers {
    Modifiers {
        shift_key: a.shift_key || b.shift_key,
        control_key: a.control_key || b.control_key,
        alt_key: a.alt_key || b.alt_key,
        super_key: a.super_key || b.super_key,
    }
}

impl Default for Modifiers {
    fn default() -> (r: Self)
        ensures
            r == mods_none(),
    {
        Modifiers { shift_key: false, control_key: false, alt_key: false, super_key: false }
    }
}

impl Modifiers {
    /// The empty modifier set.
    pub fn new() -> (r: Self)
        ensures
            r == mods_none(),
    {
        Modifiers { shift_key: false, control_key: false, alt_key: false, super_key: false }
    }

    /// True when no flag is set: the empty modifier set.
    pub fn is_none(&self) -> (r: bool)
        ensures
            r == (*self == mods_none()),
    {
        !self.shift_key && !self.control_key && !self.alt_key && !self.super_key
    }

    /// Accumulate `other` into `self`: union composition, monotonic in
    /// every flag, so a flag once set is never cleared by accumulation.
    pub fn and(&mut self, other: &Modifiers)
        ensures
            *final(self) == or_mods(*old(self), *other),
    {
        if other.shift_key {
            self.shift_key = true;
        }
        if other.control_key {
            self.control_key = true;
        }
        if other.alt_key {
            self.alt_key = true;
        }
        if other.super_key {
            self.super_key = true;
        }
    }

    /// Canonical text of the modifier set, one bracketed token per set
    /// flag, each followed by ` + `, in the fixed order super, control,
    /// alt, shift.  The parser maps the text back to the same set.
    pub fn render(&self) -> (r: String)
        ensures
            r@ == spec_render_mods(*self),
    {
        let mut out = String::new();
        if self.super_key {
            out.append("<super> + ");
        }
        if self.control_key {
            out.append("<control> + ");
        }
        if self.alt_key {
            out.append("<alt> + ");
        }
        if self.shift_key {
            out.append("<shift> + ");
        }
        proof {
            assert(out@ =~= spec_render_mods(*self));
        }
        out
    }
}

/// `t` when `b` is set, the empty text otherwise.
pub open spec fn maybe_tok(b: bool, t: Seq<char>) -> Seq<char> {
    if b {
        t
    } else {
        Seq::empty()
    }
}

/// Canonical text of a modifier set.
pub open spec fn spec_render_mods(m: Modifiers) -> Seq<char> {
    maybe_tok(m.super_key, "<super> + "@) + maybe_tok(m.control_key, "<control> + "@) + maybe_tok(
        m.alt_key,
        "<alt> + "@,
    ) + maybe_tok(m.shift_key, "<shift> + "@)
}

/// A key chord: a base key and a modifier set.
#[derive(Debug)]
pub struct Command {
    pub key: String,
    pub mods: Modifiers,
}

impl Clone for Command {
    fn clone(&self) -> (r: Self)
        ensures
            r.key@ == self.key@,
            r.mods == self.mods,
    {
        Command { key: self.key.clone(), mods: self.mods }
    }
}

/// Chord equality: equal modifier sets and base keys equal without regard
/// to ASCII letter case.
pub open spec fn chord_eq(a: Command, b: Command) -> bool {
    a.mods == b.mods && keys_ci_eq(a.key@, b.key@)
}

impl PartialEq for Command {
    fn eq(&self, other: &Self) -> (r: bool) {
        self.mods == other.mods && crate::text::str_eq_ci(self.key.as_str(), other.key.as_str())
    }
}

impl vstd::std_specs::cmp::PartialEqSpecImpl for Command {
    open spec fn obeys_eq_spec() -> bool {
        true
    }

    open spec fn eq_spec(&self, other: &Self) -> bool {
        chord_eq(*self, *other)
    }
}

/// Failure to read a chord from text.
#[derive(Debug, Copy, Clone, PartialEq, Eq, Structural)]
pub enum ParseError {
    /// No base token was found after the modifier tokens.
    Malformed,
}

/// A plain sequence of chords.
#[derive(Debug, Clone)]
pub struct CommandList(pub Vec<Command>);

impl Command {
    /// A chord over the given key with the given modifier set.
    pub fn with_modifier(key: &str, mods: &Modifiers) -> (r: Self)
        ensures
            r.key@ == key@,
            r.mods == *mods,
    {
        Command { key: key.to_owned(), mods: *mods }
    }

    /// The canonical chord of a named key: its lowercase key name with no
    /// modifiers.
    pub fn from_named(act: &NamedAct) -> (r: Self)
        ensures
            r.key@ == act.spec_cmd(),
            r.mods == mods_none(),
    {
        Command { key: act.cmd(), mods: Modifiers::new() }
    }

    /// Whether this chord matches the `trigger` chord.
    pub fn act(&self, trigger: &Command) -> (r: bool)
        ensures
            r == chord_eq(*self, *trigger),
    {
        self == trigger
    }

    /// Canonical text of the chord: the rendered modifier set followed by
    /// the base key.
    pub fn render(&self) -> (r: String)
        ensures
            r@ == spec_render(*self),
    {
        let mods = self.mods.render();
        mods.concat(self.key.as_str())
    }
}

/// Canonical text of a chord.
pub open spec fn spec_render(c: Command) -> Seq<char> {
    spec_render_mods(c.mods) + c.key@
}

// ---------------------------------------------------------------------
// The chord grammar.
/// A space or tab, the blanks the grammar skips.
pub open spec fn is_space(c: char) -> bool {
    c == ' ' || c == '\t'
}

/// An ASCII alphanumeric character, the alphabet of tokens and base keys.
pub open spec fn is_alnum(c: char) -> bool {
    (48 <= c as u32 && c as u32 <= 57) || (65 <= c as u32 && c as u32 <= 90) || (97 <= c as u32
        && c as u32 <= 122)
}

/// First position at or after `i` holding something besides a blank.
pub open spec fn skip_spaces(s: Seq<char>, i: int) -> int
    decreases s.len() - i when 0 <= i <= s.len()
{
    if i < s.len() && is_space(s[i]) {
        skip_spaces(s, i + 1)
    } else {
        i
    }
}

/// End of the alphanumeric run starting at `i`.
pub open spec fn word_end(s: Seq<char>, i: int) -> int
    decreases s.len() - i when 0 <= i <= s.len()
{
    if i < s.len() && is_alnum(s[i]) {
        word_end(s, i + 1)
    } else {
        i
    }
}

/// Position after an optional separator at `i`: blanks, at most one `+`,
/// blanks again.
pub open spec fn after_sep(s: Seq<char>, i: int) -> int {
    let j = skip_spaces(s, i);
    if j < s.len() && s[j] == '+' {
        skip_spaces(s, j + 1)
    } else {
        j
    }
}

/// The modifier set a bracketed token's body contributes: `cr` and
/// `control` set control, `alt`, `shift` and `super` set their flag, and
/// any other body contributes nothing.
pub open spec fn token_mods(w: Seq<char>) -> Modifiers {
    if w == "cr"@ || w == "control"@ {
        Modifiers { shift_key: false, control_key: true, alt_key: false, super_key: false }
    } else if w == "alt"@ {
        Modifiers { shift_key: false, control_key: false, alt_key: true, super_key: false }
    } else if w == "shift"@ {
        Modifiers { shift_key: true, control_key: false, alt_key: false, super_key: false }
    } else if w == "super"@ {
        Modifiers { shift_key: false, control_key: false, alt_key: false, super_key: true }
    } else {
        mods_none()
    }
}

/// Whether a bracketed token's body names a modifier.
pub open spec fn token_known(w: Seq<char>) -> bool {
    w == "cr"@ || w == "control"@ || w == "alt"@ || w == "shift"@ || w == "super"@
}

/// One bracketed modifier token read at `i`: an optional separator, `<`,
/// a non-empty alphanumeric body, `>`, and an optional separator; yields
/// the position after it and the modifier set the body contributes.
pub open spec fn parse_mod_at(s: Seq<char>, i: int) -> Option<(int, Modifiers)>
    recommends
        0 <= i <= s.len(),
{
    let a = after_sep(s, i);
    if a < s.len() && s[a] == '<' {
        let e = word_end(s, a + 1);
        if e > a + 1 && e < s.len() && s[e] == '>' {
            Some((after_sep(s, e + 1), token_mods(s.subrange(a + 1, e))))
        } else {
            None
        }
    } else {
        None
    }
}

proof fn lemma_skip_spaces_bounds(s: Seq<char>, i: int)
    requires
        0 <= i <= s.len(),
    ensures
        i <= skip_spaces(s, i) <= s.len(),
    decreases s.len() - i,
{
    if i < s.len() && is_space(s[i]) {
        lemma_skip_spaces_bounds(s, i + 1);
    }
}

proof fn lemma_word_end_bounds(s: Seq<char>, i: int)
    requires
        0 <= i <= s.len(),
    ensures
        i <= word_end(s, i) <= s.len(),
    decreases s.len() - i,
{
    if i < s.len() && is_alnum(s[i]) {
        lemma_word_end_bounds(s, i + 1);
    }
}

proof fn lemma_after_sep_bounds(s: Seq<char>, i: int)
    requires
        0 <= i <= s.len(),
    ensures
        i <= after_sep(s, i) <= s.len(),
{
    lemma_skip_spaces_bounds(s, i);
    let j = skip_spaces(s, i);
    if j < s.len() && s[j] == '+' {
        lemma_skip_spaces_bounds(s, j + 1);
    }
}

/// A successfully read modifier token sits inside the text and ends
/// strictly after it began.
proof fn lemma_parse_mod_advances(s: Seq<char>, i: int)
    requires
        0 <= i <= s.len(),
        parse_mod_at(s, i) is Some,
    ensures
        i < parse_mod_at(s, i)->Some_0.0 <= s.len(),
{
    lemma_after_sep_bounds(s, i);
    let a = after_sep(s, i);
    lemma_word_end_bounds(s, a + 1);
    let e = word_end(s, a + 1);
    lemma_after_sep_bounds(s, e + 1);
}

/// All modifier tokens read from `i` on: the position after them and the
/// union of the modifier sets they contribute.
pub open spec fn parse_mods_at(s: Seq<char>, i: int) -> (int, Modifiers)
    decreases s.len() - i when 0 <= i <= s.len() via parse_mods_at_decreases
{
    match parse_mod_at(s, i) {
        Some((j, m)) => {
            let (k, rest) = parse_mods_at(s, j);
            (k, or_mods(m, rest))
        },
        None => (i, mods_none()),
    }
}

#[via_fn]
proof fn parse_mods_at_decreases(s: Seq<char>, i: int) {
    if parse_mod_at(s, i) is Some {
        lemma_parse_mod_advances(s, i);
    }
}

/// The base token read after the modifiers: blanks, then a non-empty
/// alphanumeric run.
pub open spec fn spec_parse_str(s: Seq<char>) -> Option<(int, Seq<char>, Modifiers)> {
    let (i, mods) = parse_mods_at(s, 0);
    let j = skip_spaces(s, i);
    let e = word_end(s, j);
    if e > j {
        Some((e, s.subrange(j, e), mods))
    } else {
        None
    }
}

/// A base key with no lower-case ASCII letter forces the shift modifier.
pub open spec fn forces_shift(key: Seq<char>) -> bool {
    forall|k: int| 0 <= k < key.len() ==> !(97 <= key[k] as u32 && key[k] as u32 <= 122)
}

/// What chord a text denotes: the modifier tokens' union and the base
/// key, with shift forced on for a base key without lower-case letters;
/// nothing when no base token follows the modifiers.  Text after the base
/// token is ignored.
pub open spec fn spec_parse_cmd(s: Seq<char>) -> Option<(Seq<char>, Modifiers)> {
    match spec_parse_str(s) {
        Some((_, key, mods)) => Some(
            (
                key,
                if forces_shift(key) {
                    Modifiers { shift_key: true, ..mods }
                } else {
                    mods
                },
            ),
        ),
        None => None,
    }
}

// ---------------------------------------------------------------------
// Laws of the grammar.
/// The end of an alphanumeric run is the first position past it.
proof fn lemma_word_end_run(s: Seq<char>, i: int, e: int)
    requires
        0 <= i <= e <= s.len(),
        forall|j: int| i <= j < e ==> is_alnum(s[j]),
        e == s.len() || !is_alnum(s[e]),
    ensures
        word_end(s, i) == e,
    decreases e - i,
{
    if i < e {
        lemma_word_end_run(s, i + 1, e);
    }
}

/// Reading one modifier token off text that spells one: `<`, a non-empty
/// alphanumeric body, `>`, then ` + ` and something that is neither blank
/// nor `+`.  The read ends right after the trailing separator and yields
/// the body's modifier set.
proof fn lemma_parse_mod_token(s: Seq<char>, i: int, w: Seq<char>)
    requires
        0 <= i,
        i + w.len() + 5 < s.len(),
        w.len() >= 1,
        forall|k: int| 0 <= k < w.len() ==> is_alnum(w[k]),
        s[i] == '<',
        forall|k: int| 0 <= k < w.len() ==> s[i + 1 + k] == w[k],
        s[i + 1 + w.len()] == '>',
        s[i + 2 + w.len()] == ' ',
        s[i + 3 + w.len()] == '+',
        s[i + 4 + w.len()] == ' ',
        !is_space(s[i + 5 + w.len()]),
        s[i + 5 + w.len()] != '+',
    ensures
        parse_mod_at(s, i) == Some(((i + 5 + w.len()) as int, token_mods(w))),
{
    let e = i + 1 + w.len();
    assert(skip_spaces(s, i) == i);
    assert(after_sep(s, i) == i);
    assert forall|j: int| i + 1 <= j < e implies is_alnum(s[j]) by {
        assert(s[i + 1 + (j - i - 1)] == w[j - i - 1]);
        assert(is_alnum(w[j - i - 1]));
    }
    lemma_word_end_run(s, i + 1, e);
    assert(skip_spaces(s, e + 2) == e + 2);
    assert(skip_spaces(s, e + 1) == e + 2);
    assert(skip_spaces(s, e + 4) == e + 4);
    assert(skip_spaces(s, e + 3) == e + 4);
    assert(after_sep(s, e + 1) == e + 4);
    assert(s.subrange(i + 1, e) =~= w);
}

/// Rendered modifier text from one of its four stages on: each stage
/// contributes its token when its flag is set.
spec fn render_stage(m: Modifiers, stage: int) -> Seq<char>
    decreases 4 - stage when 0 <= stage <= 4
{
    if stage >= 4 {
        Seq::empty()
    } else {
        (if stage == 0 {
            maybe_tok(m.super_key, "<super> + "@)
        } else if stage == 1 {
            maybe_tok(m.control_key, "<control> + "@)
        } else if stage == 2 {
            maybe_tok(m.alt_key, "<alt> + "@)
        } else {
            maybe_tok(m.shift_key, "<shift> + "@)
        }) + render_stage(m, stage + 1)
    }
}

/// The modifier set the stages from `stage` on contribute.
spec fn mods_stage(m: Modifiers, stage: int) -> Modifiers {
    Modifiers {
        super_key: stage <= 0 && m.super_key,
        control_key: stage <= 1 && m.control_key,
        alt_key: stage <= 2 && m.alt_key,
        shift_key: stage <= 3 && m.shift_key,
    }
}

/// Rendered modifier text, when present, always starts a bracketed token.
proof fn lemma_render_stage_first(m: Modifiers, stage: int)
    requires
        0 <= stage <= 4,
    ensures
        render_stage(m, stage).len() == 0 || render_stage(m, stage)[0] == '<',
    decreases 4 - stage,
{
    reveal_strlit("<super> + ");
    reveal_strlit("<control> + ");
    reveal_strlit("<alt> + ");
    reveal_strlit("<shift> + ");
    if stage < 4 {
        lemma_render_stage_first(m, stage + 1);
    }
}

/// Parsing modifiers off rendered modifier text followed by an
/// alphanumeric key consumes exactly the rendered text and recovers
/// exactly the rendered flags.
proof fn lemma_parse_rendered_mods(s: Seq<char>, i: int, m: Modifiers, stage: int, key: Seq<char>)
    requires
        0 <= stage <= 4,
        0 <= i <= s.len(),
        s.len() == i + render_stage(m, stage).len() + key.len(),
        forall|j: int|
            0 <= j < render_stage(m, stage).len() ==> s[i + j] == render_stage(m, stage)[j],
        forall|j: int|
            0 <= j < key.len() ==> s[i + render_stage(m, stage).len() + j] == key[j],
        key.len() > 0,
        forall|k: int| 0 <= k < key.len() ==> is_alnum(key[k]),
    ensures
        parse_mods_at(s, i) == ((i + render_stage(m, stage).len()) as int, mods_stage(m, stage)),
    decreases 4 - stage,
{
    reveal_strlit("<super> + ");
    reveal_strlit("<control> + ");
    reveal_strlit("<alt> + ");
    reveal_strlit("<shift> + ");
    reveal_strlit("super");
    reveal_strlit("control");
    reveal_strlit("alt");
    reveal_strlit("shift");
    reveal_strlit("cr");
    let r = render_stage(m, stage);
    if stage == 4 {
        assert(s[i] == key[0]);
        assert(!is_space(s[i]) && s[i] != '+' && s[i] != '<');
        assert(skip_spaces(s, i) == i);
        assert(after_sep(s, i) == i);
        assert(parse_mod_at(s, i) is None);
        assert(parse_mods_at(s, i) == (i, mods_none()));
        assert(mods_stage(m, stage) == mods_none());
    } else {
        let flag = if stage == 0 {
            m.super_key
        } else if stage == 1 {
            m.control_key
        } else if stage == 2 {
            m.alt_key
        } else {
            m.shift_key
        };
        let rest = render_stage(m, stage + 1);
        if !flag {
            assert(r =~= rest);
            lemma_parse_rendered_mods(s, i, m, stage + 1, key);
            assert(mods_stage(m, stage) == mods_stage(m, stage + 1));
        } else {
            let tok: Seq<char> = if stage == 0 {
                "<super> + "@
            } else if stage == 1 {
                "<control> + "@
            } else if stage == 2 {
                "<alt> + "@
            } else {
                "<shift> + "@
            };
            let w: Seq<char> = if stage == 0 {
                "super"@
            } else if stage == 1 {
                "control"@
            } else if stage == 2 {
                "alt"@
            } else {
                "shift"@
            };
            assert(maybe_tok(flag, tok) == tok);
            assert(r == tok + rest);
            assert(r.len() == tok.len() + rest.len());
            assert(tok.len() == w.len() + 5);
            assert forall|j: int| 0 <= j < tok.len() implies s[i + j] == tok[j] by {
                assert(s[i + j] == render_stage(m, stage)[j]);
                assert(render_stage(m, stage)[j] == (tok + rest)[j]);
            }
            let i2 = i + tok.len();
            assert forall|j: int| 0 <= j < rest.len() implies s[i2 + j] == rest[j] by {
                assert(s[i + (tok.len() + j)] == render_stage(m, stage)[tok.len() + j]);
                assert(render_stage(m, stage)[tok.len() + j] == rest[j]);
                assert(i2 + j == i + (tok.len() + j));
            }
            assert(r.len() == tok.len() + rest.len());
            assert forall|j: int| 0 <= j < key.len() implies s[i2 + rest.len() + j] == key[j] by {
                assert(s[i + render_stage(m, stage).len() + j] == key[j]);
                assert(i2 + rest.len() + j == i + render_stage(m, stage).len() + j);
            }
            lemma_render_stage_first(m, stage + 1);
            assert(!is_space(s[i2]) && s[i2] != '+') by {
                if rest.len() == 0 {
                    assert(s[i2 + rest.len() + 0] == key[0]);
                    assert(is_alnum(key[0]));
                } else {
                    assert(s[i2 + 0] == rest[0]);
                    assert(rest[0] == '<');
                }
            }
            assert(s[i] == '<') by {
                assert(s[i + 0] == tok[0]);
                assert(tok[0] == '<');
            }
            assert forall|k: int| 0 <= k < w.len() implies s[i + 1 + k] == w[k] && is_alnum(w[k]) by {
                assert(s[i + (1 + k)] == tok[1 + k]);
                assert(tok[1 + k] == w[k]);
                assert(is_alnum(w[k]));
            }
            assert(s[i + 1 + w.len()] == '>') by {
                assert(s[i + (1 + w.len())] == tok[(1 + w.len()) as int]);
                assert(tok[(1 + w.len()) as int] == '>');
            }
            assert(s[i + 2 + w.len()] == ' ') by {
                assert(s[i + (2 + w.len())] == tok[(2 + w.len()) as int]);
                assert(tok[(2 + w.len()) as int] == ' ');
            }
            assert(s[i + 3 + w.len()] == '+') by {
                assert(s[i + (3 + w.len())] == tok[(3 + w.len()) as int]);
                assert(tok[(3 + w.len()) as int] == '+');
            }
            assert(s[i + 4 + w.len()] == ' ') by {
                assert(s[i + (4 + w.len())] == tok[(4 + w.len()) as int]);
                assert(tok[(4 + w.len()) as int] == ' ');
            }
            assert(i + w.len() + 5 < s.len());
            lemma_parse_mod_token(s, i, w);
            let tm = token_mods(w);
            assert(tm == Modifiers {
                shift_key: stage == 3,
                control_key: stage == 1,
                alt_key: stage == 2,
                super_key: stage == 0,
            }) by {
                if stage == 0 {
                    assert(w.len() == 5 && "cr"@.len() == 2 && "control"@.len() == 7 && "alt"@.len()
                        == 3);
                    assert(w[1] == 'u' && "shift"@[1] == 'h');
                } else if stage == 1 {
                    assert(w.len() == 7 && "cr"@.len() == 2);
                } else if stage == 2 {
                    assert(w.len() == 3 && "cr"@.len() == 2 && "control"@.len() == 7);
                } else {
                    assert(w.len() == 5 && "cr"@.len() == 2 && "control"@.len() == 7 && "alt"@.len()
                        == 3);
                }
            }
            assert(i + 5 + w.len() == i2);
            lemma_parse_rendered_mods(s, i2, m, stage + 1, key);
            assert(parse_mods_at(s, i) == (
                (i + r.len()) as int,
                or_mods(tm, mods_stage(m, stage + 1)),
            ));
            assert(or_mods(tm, mods_stage(m, stage + 1)) == mods_stage(m, stage));
        }
    }
}

/// Chord round trip: rendering any chord with a non-empty alphanumeric
/// base key and parsing the text back yields the same chord, except that
/// a base key without a lower-case letter comes back with the shift
/// modifier forced on, whatever the rendered shift flag was.
pub proof fn lemma_chord_round_trip(c: Command)
    requires
        c.key@.len() > 0,
        forall|k: int| 0 <= k < c.key@.len() ==> is_alnum(c.key@[k]),
    ensures
        (spec_parse_cmd(spec_render(c)) is Some),
        spec_parse_cmd(spec_render(c))->Some_0.0 == c.key@,
        spec_parse_cmd(spec_render(c))->Some_0.1 == (Modifiers {
            shift_key: c.mods.shift_key || forces_shift(c.key@),
            ..c.mods
        }),
{
    let m = c.mods;
    let key = c.key@;
    let s = spec_render(c);
    reveal_with_fuel(render_stage, 6);
    assert(spec_render_mods(m) =~= render_stage(m, 0));
    let rlen = render_stage(m, 0).len() as int;
    assert(s.len() == rlen + key.len());
    assert forall|j: int| 0 <= j < rlen implies s[0 + j] == render_stage(m, 0)[j] by {
        assert(s[j] == spec_render_mods(m)[j]);
    }
    assert forall|j: int| 0 <= j < key.len() implies s[0 + rlen + j] == key[j] by {
        assert(s[rlen + j] == key[j]);
    }
    lemma_parse_rendered_mods(s, 0, m, 0, key);
    assert(mods_stage(m, 0) == m);
    assert(parse_mods_at(s, 0) == (rlen, m));
    assert(s[rlen] == key[0]) by {
        assert(s[0 + rlen + 0] == key[0]);
    }
    assert(!is_space(s[rlen]));
    assert(skip_spaces(s, rlen) == rlen);
    assert forall|j: int| rlen <= j < s.len() implies is_alnum(s[j]) by {
        assert(s[0 + rlen + (j - rlen)] == key[j - rlen]);
    }
    lemma_word_end_run(s, rlen, s.len() as int);
    assert(s.subrange(rlen, s.len() as int) =~= key) by {
        assert(forall|j: int| 0 <= j < key.len() ==> s[0 + rlen + j] == key[j]);
    }
}

/// Uppercase implies shift: the chord of `"A"`, with no modifier written,
/// equals the chord of `"<shift> + a"`: the same modifier set, and base
/// keys equal without regard to case.
pub proof fn lemma_uppercase_implies_shift()
    ensures
        (spec_parse_cmd("A"@) is Some),
        (spec_parse_cmd("<shift> + a"@) is Some),
        spec_parse_cmd("A"@)->Some_0.1 == spec_parse_cmd("<shift> + a"@)->Some_0.1,
        keys_ci_eq(spec_parse_cmd("A"@)->Some_0.0, spec_parse_cmd("<shift> + a"@)->Some_0.0),
{
    reveal_strlit("A");
    reveal_strlit("a");
    reveal_strlit("<shift> + a");
    reveal_strlit("shift");
    reveal_strlit("super");
    reveal_strlit("control");
    reveal_strlit("alt");
    reveal_strlit("cr");
    let sa = "A"@;
    assert(sa.len() == 1 && sa[0] == 'A');
    assert(!is_space('A') && 'A' != '+' && 'A' != '<');
    assert(skip_spaces(sa, 0) == 0);
    assert(after_sep(sa, 0) == 0);
    assert(parse_mod_at(sa, 0) is None);
    assert(parse_mods_at(sa, 0) == (0int, mods_none()));
    assert(is_alnum('A'));
    assert(skip_spaces(sa, 1) == 1);
    assert(word_end(sa, 1) == 1);
    assert(word_end(sa, 0) == 1);
    assert(sa.subrange(0, 1) =~= sa);
    assert(forces_shift(sa));
    let sb = "<shift> + a"@;
    assert(sb.len() == 11);
    assert(sb[0] == '<' && sb[1] == 's' && sb[2] == 'h' && sb[3] == 'i' && sb[4] == 'f' && sb[5]
        == 't' && sb[6] == '>' && sb[7] == ' ' && sb[8] == '+' && sb[9] == ' ' && sb[10] == 'a');
    assert(forall|k: int| 0 <= k < 5 ==> sb[1 + k] == "shift"@[k]);
    assert(forall|k: int| 0 <= k < 5 ==> is_alnum("shift"@[k]));
    assert(!is_space('a') && 'a' != '+');
    lemma_parse_mod_token(sb, 0, "shift"@);
    assert(token_mods("shift"@) == Modifiers {
        shift_key: true,
        control_key: false,
        alt_key: false,
        super_key: false,
    });
    assert(skip_spaces(sb, 10) == 10);
    assert(after_sep(sb, 10) == 10);
    assert(parse_mod_at(sb, 10) is None);
    assert(parse_mods_at(sb, 10) == (10int, mods_none()));
    assert(parse_mods_at(sb, 0) == (
        10int,
        or_mods(token_mods("shift"@), mods_none()),
    ));
    assert(is_alnum('a'));
    assert(word_end(sb, 11) == 11);
    assert(word_end(sb, 10) == 11);
    assert(sb.subrange(10, 11) =~= "a"@);
    assert(!forces_shift("a"@)) by {
        assert(97 <= "a"@[0] as u32 && "a"@[0] as u32 <= 122);
    }
    assert(crate::text::low_code('A') == crate::text::low_code('a'));
}

// ---------------------------------------------------------------------
// The executable parser.
/// The modifier set a bare token name contributes, or nothing for an
/// unknown name.
pub fn into_mods(input: &str) -> (r: Option<Modifiers>)
    ensures
        r == if token_known(input@) {
            Some(token_mods(input@))
        } else {
            None::<Modifiers>
        },
{
    if crate::text::str_eq(input, "cr") || crate::text::str_eq(input, "control") {
        Some(Modifiers { shift_key: false, control_key: true, alt_key: false, super_key: false })
    } else if crate::text::str_eq(input, "alt") {
        Some(Modifiers { shift_key: false, control_key: false, alt_key: true, super_key: false })
    } else if crate::text::str_eq(input, "shift") {
        Some(Modifiers { shift_key: true, control_key: false, alt_key: false, super_key: false })
    } else if crate::text::str_eq(input, "super") {
        Some(Modifiers { shift_key: false, control_key: false, alt_key: false, super_key: true })
    } else {
        None
    }
}

/// True of the blanks the grammar skips.
fn space_char(c: char) -> (r: bool)
    ensures
        r == is_space(c),
{
    c == ' ' || c == '\t'
}

fn skip_ws(s: &str, i: usize) -> (j: usize)
    requires
        i <= s@.len(),
    ensures
        j == skip_spaces(s@, i as int),
        i <= j <= s@.len(),
{
    let len = s.unicode_len();
    let mut j = i;
    while j < len && space_char(s.get_char(j))
        invariant
            i <= j <= len,
            len == s@.len(),
            skip_spaces(s@, i as int) == skip_spaces(s@, j as int),
        decreases len - j,
    {
        j += 1;
    }
    j
}

/// True of the ASCII alphanumeric characters.
fn alnum_char(c: char) -> (r: bool)
    ensures
        r == is_alnum(c),
{
    let u = c as u32;
    (48 <= u && u <= 57) || (65 <= u && u <= 90) || (97 <= u && u <= 122)
}

fn word_stop(s: &str, i: usize) -> (e: usize)
    requires
        i <= s@.len(),
    ensures
        e == word_end(s@, i as int),
        i <= e <= s@.len(),
{
    let len = s.unicode_len();
    let mut e = i;
    while e < len && alnum_char(s.get_char(e))
        invariant
            i <= e <= len,
            len == s@.len(),
            word_end(s@, i as int) == word_end(s@, e as int),
        decreases len - e,
    {
        e += 1;
    }
    e
}

/// Consume an optional separator at `i`: blanks, at most one `+`, blanks.
pub fn separator(s: &str, i: usize) -> (j: usize)
    requires
        i <= s@.len(),
    ensures
        j == after_sep(s@, i as int),
        i <= j <= s@.len(),
{
    let j = skip_ws(s, i);
    if j < s.unicode_len() && s.get_char(j) == '+' {
        skip_ws(s, j + 1)
    } else {
        j
    }
}

/// Read one bracketed modifier token at `i`: the position after it and
/// the modifier set it contributes.
pub fn parse_mod(s: &str, i: usize) -> (r: Option<(usize, Modifiers)>)
    requires
        i <= s@.len(),
    ensures
        match parse_mod_at(s@, i as int) {
            Some((j, m)) => r is Some && r->Some_0.0 == j && r->Some_0.1 == m,
            None => r is None,
        },
{
    let len = s.unicode_len();
    let a = separator(s, i);
    if a < len && s.get_char(a) == '<' {
        let e = word_stop(s, a + 1);
        if e > a + 1 && e < len && s.get_char(e) == '>' {
            let body = s.substring_char(a + 1, e);
            let m = match into_mods(body) {
                Some(m) => m,
                None => Modifiers::new(),
            };
            let j = separator(s, e + 1);
            Some((j, m))
        } else {
            None
        }
    } else {
        None
    }
}

/// Whether a bracketed modifier token can be read at `i`.
pub fn is_modifier(s: &str, i: usize) -> (r: bool)
    requires
        i <= s@.len(),
    ensures
        r == (parse_mod_at(s@, i as int) is Some),
{
    parse_mod(s, i).is_some()
}

/// Read every modifier token from `i` on, accumulating their union.
pub fn parse_mods(s: &str, i: usize) -> (r: (usize, Modifiers))
    requires
        i <= s@.len(),
    ensures
        r.0 == parse_mods_at(s@, i as int).0,
        r.1 == parse_mods_at(s@, i as int).1,
        i <= r.0 <= s@.len(),
{
    let mut pos = i;
    let mut mods = Modifiers::new();
    proof {
        lemma_after_sep_bounds(s@, i as int);
    }
    loop
        invariant
            i <= pos <= s@.len(),
            parse_mods_at(s@, i as int).0 == parse_mods_at(s@, pos as int).0,
            parse_mods_at(s@, i as int).1 == or_mods(mods, parse_mods_at(s@, pos as int).1),
        decreases s@.len() - pos,
    {
        proof {
            if parse_mod_at(s@, pos as int) is Some {
                lemma_parse_mod_advances(s@, pos as int);
            }
        }
        match parse_mod(s, pos) {
            Some((j, m)) => {
                mods.and(&m);
                pos = j;
            },
            None => {
                return (pos, mods);
            },
        }
    }
}

/// Read the base token at `i`: blanks then a non-empty alphanumeric run;
/// yields the position after the token and the token itself.
pub fn word(s: &str, i: usize) -> (r: Option<(usize, String)>)
    requires
        i <= s@.len(),
    ensures
        ({
            let j = skip_spaces(s@, i as int);
            let e = word_end(s@, j);
            if e > j {
                r is Some && r->Some_0.0 == e && r->Some_0.1@ == s@.subrange(j, e)
            } else {
                r is None
            }
        }),
{
    let j = skip_ws(s, i);
    let e = word_stop(s, j);
    if e > j {
        let token = s.substring_char(j, e).to_owned();
        Some((e, token))
    } else {
        None
    }
}

/// Read a whole chord from the start of the text: modifiers then base
/// token; yields the position after the base token and the chord, without
/// the forced-shift rule applied.
pub fn parse_str(input: &str) -> (r: Option<(usize, Command)>)
    ensures
        match spec_parse_str(input@) {
            Some((e, key, mods)) => {
                &&& r is Some
                &&& r->Some_0.0 == e
                &&& r->Some_0.1.key@ == key
                &&& r->Some_0.1.mods == mods
            },
            None => r is None,
        },
{
    let (pos, mods) = parse_mods(input, 0);
    match word(input, pos) {
        Some((e, key)) => Some((e, Command { key, mods })),
        None => None,
    }
}

/// Whether no character of the key is a lower-case ASCII letter, the
/// condition under which parsing forces the shift modifier on.
fn key_forces_shift(key: &str) -> (r: bool)
    ensures
        r == forces_shift(key@),
{
    let len = key.unicode_len();
    let mut k: usize = 0;
    while k < len
        invariant
            k <= len,
            len == key@.len(),
            forall|q: int|
                0 <= q < k ==> !(97 <= key@[q] as u32 && key@[q] as u32 <= 122),
        decreases len - k,
    {
        let u = key.get_char(k) as u32;
        if 97 <= u && u <= 122 {
            return false;
        }
        k += 1;
    }
    true
}

/// Read a chord from text, applying the forced-shift rule: a base key
/// without a lower-case ASCII letter always carries shift.  Text after
/// the base token is ignored; a missing base token is malformed.
pub fn parse_cmd(input: &str) -> (r: Result<Command, ParseError>)
    ensures
        match spec_parse_cmd(input@) {
            Some((key, mods)) => {
                &&& r is Ok
                &&& r->Ok_0.key@ == key
                &&& r->Ok_0.mods == mods
            },
            None => r == Err::<Command, ParseError>(ParseError::Malformed),
        },
{
    match parse_str(input) {
        Some((_, mut cmd)) => {
            if key_forces_shift(cmd.key.as_str()) {
                cmd.mods.shift_key = true;
            }
            Ok(cmd)
        },
        None => Err(ParseError::Malformed),
    }
}

} // verus!
