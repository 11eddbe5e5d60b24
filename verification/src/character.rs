//! Character-sheet data: attributes, derived statistics, encumbrance.
//!
//! These are the domain values the table views display.  Attribute and
//! encumbrance values are plain integers; the derived statistics follow
//! the sheet's formulas, dropping fractions.  Each table-facing type can
//! enumerate its rows as name/value text.

use crate::text::{fmt_usize, spec_decimal};
use vstd::prelude::*;

verus! {

/// Biographical details without a game mechanic.
#[derive(Debug, Clone)]
pub struct Biography {
    /// The character name.
    pub name: String,
    /// The player name.
    pub player: String,
}

impl Default for Biography {
    fn default() -> (r: Self)
        ensures
            r.name@.len() == 0,
            r.player@.len() == 0,
    {
        Biography { name: String::new(), player: String::new() }
    }
}

impl Biography {
    /// The character name.
    pub fn name(&self) -> (r: &String)
        ensures
            r@ == self.name@,
    {
        &self.name
    }

    /// The player name.
    pub fn player(&self) -> (r: &String)
        ensures
            r@ == self.player@,
    {
        &self.player
    }

    /// The biography with the character name replaced.
    pub fn with_name(self, name: String) -> (r: Self)
        ensures
            r.name@ == name@,
            r.player@ == self.player@,
    {
        Biography { name, ..self }
    }

    /// The biography with the player name replaced.
    pub fn with_player(self, player: String) -> (r: Self)
        ensures
            r.player@ == player@,
            r.name@ == self.name@,
    {
        Biography { player, ..self }
    }
}

/// The eight physical attributes.
#[derive(Debug, Copy, Clone, PartialEq, Eq, Structural)]
pub enum AttributeType {
    /// Physical strength.
    Strength,
    /// Speed and flexibility.
    Dexterity,
    /// Capacity of thought.
    Intelligence,
    /// Integrity of constitution.
    Health,
    /// Integer representation of life essence.
    HitPoints,
    /// Capacity for focus and determination.
    Willpower,
    /// Ability to sense and interpret external events.
    Perception,
    /// Integer representation of remaining stamina.
    Fatigue,
}

impl Default for AttributeType {
    fn default() -> (r: Self)
        ensures
            r == AttributeType::Strength,
    {
        AttributeType::Strength
    }
}

impl AttributeType {
    /// Display label of the attribute.
    pub open spec fn spec_label(self) -> Seq<char> {
        match self {
            AttributeType::Strength => "Strength"@,
            AttributeType::Dexterity => "Dexterity"@,
            AttributeType::Intelligence => "Intelligence"@,
            AttributeType::Health => "Health"@,
            AttributeType::HitPoints => "Hit Points"@,
            AttributeType::Willpower => "Willpower"@,
            AttributeType::Perception => "Perception"@,
            AttributeType::Fatigue => "Fatigue"@,
        }
    }

    /// Display label of the attribute.
    pub fn label(&self) -> (r: String)
        ensures
            r@ == self.spec_label(),
    {
        match self {
            AttributeType::Strength => "Strength".to_owned(),
            AttributeType::Dexterity => "Dexterity".to_owned(),
            AttributeType::Intelligence => "Intelligence".to_owned(),
            AttributeType::Health => "Health".to_owned(),
            AttributeType::HitPoints => "Hit Points".to_owned(),
            AttributeType::Willpower => "Willpower".to_owned(),
            AttributeType::Perception => "Perception".to_owned(),
            AttributeType::Fatigue => "Fatigue".to_owned(),
        }
    }

    /// Every attribute, in sheet order.
    pub fn variants() -> (r: Vec<AttributeType>)
        ensures
            r@ == seq![
                AttributeType::Strength,
                AttributeType::Dexterity,
                AttributeType::Intelligence,
                AttributeType::Health,
                AttributeType::HitPoints,
                AttributeType::Willpower,
                AttributeType::Perception,
                AttributeType::Fatigue,
            ],
    {
        let v: Vec<AttributeType> = vec![
            AttributeType::Strength,
            AttributeType::Dexterity,
            AttributeType::Intelligence,
            AttributeType::Health,
            AttributeType::HitPoints,
            AttributeType::Willpower,
            AttributeType::Perception,
            AttributeType::Fatigue,
        ];
        proof {
            assert(v@ =~= seq![
                AttributeType::Strength,
                AttributeType::Dexterity,
                AttributeType::Intelligence,
                AttributeType::Health,
                AttributeType::HitPoints,
                AttributeType::Willpower,
                AttributeType::Perception,
                AttributeType::Fatigue,
            ]);
        }
        v
    }
}

/// Attribute values of a character, one field per [`AttributeType`].
#[derive(Debug, Copy, Clone, PartialEq, Eq, Structural)]
pub struct Attributes {
    /// Strength.
    pub st: usize,
    /// Dexterity.
    pub dx: usize,
    /// Intelligence.
    pub iq: usize,
    /// Health.
    pub ht: usize,
    /// Hit points.
    pub hp: usize,
    /// Willpower.
    pub will: usize,
    /// Perception.
    pub per: usize,
    /// Fatigue.
    pub fp: usize,
}

impl Default for Attributes {
    fn default() -> (r: Self)
        ensures
            r == (Attributes { st: 0, dx: 0, iq: 0, ht: 0, hp: 0, will: 0, per: 0, fp: 0 }),
    {
        Attributes { st: 0, dx: 0, iq: 0, ht: 0, hp: 0, will: 0, per: 0, fp: 0 }
    }
}

impl Attributes {
    /// Attributes from a list of at least eight values, in field order.
    pub fn from_vec(vec: Vec<usize>) -> (r: Self)
        requires
            vec@.len() >= 8,
        ensures
            r == (Attributes {
                st: vec@[0],
                dx: vec@[1],
                iq: vec@[2],
                ht: vec@[3],
                hp: vec@[4],
                will: vec@[5],
                per: vec@[6],
                fp: vec@[7],
            }),
    {
        Attributes {
            st: vec[0],
            dx: vec[1],
            iq: vec[2],
            ht: vec[3],
            hp: vec[4],
            will: vec[5],
            per: vec[6],
            fp: vec[7],
        }
    }

    /// Display name of an attribute.
    pub fn name(&self, attribute: &AttributeType) -> (r: String)
        ensures
            r@ == attribute.spec_label(),
    {
        attribute.label()
    }

    /// The value of the field the attribute names.
    pub open spec fn spec_value(self, attribute: AttributeType) -> usize {
        match attribute {
            AttributeType::Strength => self.st,
            AttributeType::Dexterity => self.dx,
            AttributeType::Intelligence => self.iq,
            AttributeType::Health => self.ht,
            AttributeType::HitPoints => self.hp,
            AttributeType::Willpower => self.will,
            AttributeType::Perception => self.per,
            AttributeType::Fatigue => self.fp,
        }
    }

    /// The value of the field the attribute names.
    pub fn value(&self, attribute: &AttributeType) -> (r: usize)
        ensures
            r == self.spec_value(*attribute),
    {
        match attribute {
            AttributeType::Strength => self.st,
            AttributeType::Dexterity => self.dx,
            AttributeType::Intelligence => self.iq,
            AttributeType::Health => self.ht,
            AttributeType::HitPoints => self.hp,
            AttributeType::Willpower => self.will,
            AttributeType::Perception => self.per,
            AttributeType::Fatigue => self.fp,
        }
    }

    /// The display text of one column for one attribute.
    pub fn column(&self, attribute: &AttributeType, column: &DisplayColumns) -> (r: String)
        ensures
            *column == DisplayColumns::Name ==> r@ == attribute.spec_label(),
            *column == DisplayColumns::Value ==> r@ == spec_decimal(
                self.spec_value(*attribute) as nat,
            ),
    {
        match column {
            DisplayColumns::Name => self.name(attribute),
            DisplayColumns::Value => fmt_usize(self.value(attribute)),
        }
    }

    /// The table row for one attribute: its name and its value text.
    pub fn columns(&self, attribute: &AttributeType) -> (r: Vec<String>)
        ensures
            r@.len() == 2,
            r@[0]@ == attribute.spec_label(),
            r@[1]@ == spec_decimal(self.spec_value(*attribute) as nat),
    {
        let mut out: Vec<String> = Vec::new();
        out.push(self.column(attribute, &DisplayColumns::Name));
        out.push(self.column(attribute, &DisplayColumns::Value));
        out
    }

    /// An iterator over the display rows, one per attribute.
    pub fn iter_columns(&self) -> (r: ColumnIterator)
        ensures
            r.values == *self,
            r.kind == 0,
    {
        ColumnIterator { values: *self, kind: 0 }
    }
}

/// The two columns of the attribute table.
#[derive(Debug, Copy, Clone, PartialEq, Eq, Structural)]
pub enum DisplayColumns {
    /// The row's name column.
    Name,
    /// The row's value column.
    Value,
}

impl Default for DisplayColumns {
    fn default() -> (r: Self)
        ensures
            r == DisplayColumns::Value,
    {
        DisplayColumns::Value
    }
}

impl DisplayColumns {
    /// Display label of the column.
    pub fn label(&self) -> (r: String)
        ensures
            *self == DisplayColumns::Name ==> r@ == "Name"@,
            *self == DisplayColumns::Value ==> r@ == "Value"@,
    {
        match self {
            DisplayColumns::Name => "Name".to_owned(),
            DisplayColumns::Value => "Value".to_owned(),
        }
    }

    /// The column headers, in order.
    pub fn names() -> (r: Vec<String>)
        ensures
            r@.len() == 2,
            r@[0]@ == "Name"@,
            r@[1]@ == "Value"@,
    {
        let mut out: Vec<String> = Vec::new();
        out.push("Name".to_owned());
        out.push("Value".to_owned());
        out
    }
}

/// One displayable name/value row.
#[derive(Debug, Clone)]
pub struct DisplayField {
    /// The row's name text.
    pub name: String,
    /// The row's value text.
    pub value: String,
    /// Stable row identity for table views.
    pub id: u64,
}

impl DisplayField {
    /// A row from its two texts.
    pub fn new(name: &str, value: &str) -> (r: Self)
        ensures
            r.name@ == name@,
            r.value@ == value@,
            r.id == 0,
    {
        DisplayField { name: name.to_owned(), value: value.to_owned(), id: 0 }
    }

    /// The row's name text.
    pub fn name(&self) -> (r: &String)
        ensures
            r@ == self.name@,
    {
        &self.name
    }

    /// The row's value text.
    pub fn value(&self) -> (r: &String)
        ensures
            r@ == self.value@,
    {
        &self.value
    }
}

/// Steps through the attributes, yielding one display row each.
#[derive(Debug, Copy, Clone)]
pub struct ColumnIterator {
    /// The attribute values the rows show.
    pub values: Attributes,
    /// Position of the next attribute, in sheet order.
    pub kind: usize,
}

/// The attribute at a sheet position.
pub open spec fn attribute_at(k: int) -> AttributeType {
    if k == 0 {
        AttributeType::Strength
    } else if k == 1 {
        AttributeType::Dexterity
    } else if k == 2 {
        AttributeType::Intelligence
    } else if k == 3 {
        AttributeType::Health
    } else if k == 4 {
        AttributeType::HitPoints
    } else if k == 5 {
        AttributeType::Willpower
    } else if k == 6 {
        AttributeType::Perception
    } else {
        AttributeType::Fatigue
    }
}

impl ColumnIterator {
    /// The next display row, or nothing past the last attribute.
    pub fn next(&mut self) -> (r: Option<DisplayField>)
        ensures
            old(self).kind >= 8 ==> r is None && *final(self) == *old(self),
            old(self).kind < 8 ==> {
                &&& final(self).kind == old(self).kind + 1
                &&& final(self).values == old(self).values
                &&& r is Some
                &&& r->Some_0.name@ == attribute_at(old(self).kind as int).spec_label()
                &&& r->Some_0.value@ == spec_decimal(
                    old(self).values.spec_value(attribute_at(old(self).kind as int)) as nat,
                )
            },
    {
        if self.kind >= 8 {
            return None;
        }
        let attribute = match self.kind {
            0 => AttributeType::Strength,
            1 => AttributeType::Dexterity,
            2 => AttributeType::Intelligence,
            3 => AttributeType::Health,
            4 => AttributeType::HitPoints,
            5 => AttributeType::Willpower,
            6 => AttributeType::Perception,
            _ => AttributeType::Fatigue,
        };
        let name = self.values.name(&attribute);
        let value = fmt_usize(self.values.value(&attribute));
        self.kind = self.kind + 1;
        Some(DisplayField { name, value, id: (self.kind - 1) as u64 })
    }
}

/// The three derived statistics.
#[derive(Debug, Copy, Clone, PartialEq, Eq, Structural)]
pub enum StatType {
    /// The maximum one-handed overhead lift.
    BasicLift,
    /// Ground speed in game terms.
    BasicMove,
    /// Reaction speed, carried with a fraction on the sheet.
    BasicSpeed,
}

impl Default for StatType {
    fn default() -> (r: Self)
        ensures
            r == StatType::BasicLift,
    {
        StatType::BasicLift
    }
}

impl StatType {
    /// Display label of the statistic.
    pub fn label(&self) -> (r: String)
        ensures
            *self == StatType::BasicLift ==> r@ == "Basic Lift"@,
            *self == StatType::BasicMove ==> r@ == "Basic Move"@,
            *self == StatType::BasicSpeed ==> r@ == "Basic Speed"@,
    {
        match self {
            StatType::BasicLift => "Basic Lift".to_owned(),
            StatType::BasicMove => "Basic Move".to_owned(),
            StatType::BasicSpeed => "Basic Speed".to_owned(),
        }
    }
}

/// Basic lift: strength squared over five, dropping fractions.
pub fn basic_lift(st: usize) -> (r: usize)
    requires
        st * st <= usize::MAX,
    ensures
        r == st * st / 5,
{
    st * st / 5
}

/// Basic move: the whole part of basic speed, which is health plus
/// dexterity over four.
pub fn basic_move(ht: usize, dx: usize) -> (r: usize)
    requires
        ht + dx <= usize::MAX,
    ensures
        r == (ht + dx) / 4,
{
    (ht + dx) / 4
}

/// Unencumbered dodge: the whole part of basic speed plus three.
pub fn dodge_base(ht: usize, dx: usize) -> (r: usize)
    requires
        ht + dx <= usize::MAX - 3,
    ensures
        r == (ht + dx) / 4 + 3,
{
    (ht + dx) / 4 + 3
}

/// A damage roll classification.
#[derive(Debug, Copy, Clone, PartialEq, Eq, Structural)]
pub enum DamageKind {
    /// Thrusting damage of the given level.
    Thrust(usize),
    /// Swinging damage of the given level.
    Swing(usize),
}

impl Default for DamageKind {
    fn default() -> (r: Self)
        ensures
            r == DamageKind::Thrust(0),
    {
        DamageKind::Thrust(0)
    }
}

/// Combat statistics of a character.
#[derive(Debug, Copy, Clone, PartialEq, Eq, Structural)]
pub struct CombatStats {
    /// Thrusting damage.
    pub damage_thrust: DamageKind,
    /// Swinging damage.
    pub damage_swing: DamageKind,
    /// Damage resistance.
    pub dr: usize,
    /// Parry score.
    pub parry: usize,
    /// Block score.
    pub block: usize,
}

impl CombatStats {
    /// Combat statistics from their parts.
    pub fn new(
        damage_thrust: DamageKind,
        damage_swing: DamageKind,
        dr: usize,
        parry: usize,
        block: usize,
    ) -> (r: Self)
        ensures
            r == (CombatStats { damage_thrust, damage_swing, dr, parry, block }),
    {
        CombatStats { damage_thrust, damage_swing, dr, parry, block }
    }
}

impl Default for CombatStats {
    fn default() -> (r: Self)
        ensures
            r == (CombatStats {
                damage_thrust: DamageKind::Thrust(0),
                damage_swing: DamageKind::Swing(0),
                dr: 0,
                parry: 0,
                block: 0,
            }),
    {
        CombatStats {
            damage_thrust: DamageKind::Thrust(0),
            damage_swing: DamageKind::Swing(0),
            dr: 0,
            parry: 0,
            block: 0,
        }
    }
}

/// The three encumbrance measurements.
#[derive(Debug, Copy, Clone, PartialEq, Eq, Structural)]
pub enum EncumbranceType {
    /// Carried weight thresholds.
    Weight,
    /// Move score while carrying.
    Move,
    /// Dodge score while carrying.
    Dodge,
}

impl Default for EncumbranceType {
    fn default() -> (r: Self)
        ensures
            r == EncumbranceType::Weight,
    {
        EncumbranceType::Weight
    }
}

impl EncumbranceType {
    /// Display label of the measurement.
    pub fn label(&self) -> (r: String)
        ensures
            *self == EncumbranceType::Weight ==> r@ == "Weight"@,
            *self == EncumbranceType::Move ==> r@ == "Move"@,
            *self == EncumbranceType::Dodge ==> r@ == "Dodge"@,
    {
        match self {
            EncumbranceType::Weight => "Weight".to_owned(),
            EncumbranceType::Move => "Move".to_owned(),
            EncumbranceType::Dodge => "Dodge".to_owned(),
        }
    }
}

/// The five encumbrance levels.
#[derive(Debug, Copy, Clone, PartialEq, Eq, Structural)]
pub enum EncumbranceLevel {
    /// Carrying up to basic lift.
    Unburdened,
    /// Carrying up to twice basic lift.
    Light,
    /// Carrying up to three times basic lift.
    Medium,
    /// Carrying up to six times basic lift.
    Heavy,
    /// Carrying up to ten times basic lift.
    XHeavy,
}

impl Default for EncumbranceLevel {
    fn default() -> (r: Self)
        ensures
            r == EncumbranceLevel::Unburdened,
    {
        EncumbranceLevel::Unburdened
    }
}

impl EncumbranceLevel {
    /// Display name of the level.
    pub open spec fn spec_name(self) -> Seq<char> {
        match self {
            EncumbranceLevel::Unburdened => "None"@,
            EncumbranceLevel::Light => "Light"@,
            EncumbranceLevel::Medium => "Medium"@,
            EncumbranceLevel::Heavy => "Heavy"@,
            EncumbranceLevel::XHeavy => "Extra Heavy"@,
        }
    }

    /// Display name of the level.
    pub fn name(&self) -> (r: String)
        ensures
            r@ == self.spec_name(),
    {
        match self {
            EncumbranceLevel::Unburdened => "None".to_owned(),
            EncumbranceLevel::Light => "Light".to_owned(),
            EncumbranceLevel::Medium => "Medium".to_owned(),
            EncumbranceLevel::Heavy => "Heavy".to_owned(),
            EncumbranceLevel::XHeavy => "Extra Heavy".to_owned(),
        }
    }
}

/// The level at a table position.
pub open spec fn level_at(k: int) -> EncumbranceLevel {
    if k == 0 {
        EncumbranceLevel::Unburdened
    } else if k == 1 {
        EncumbranceLevel::Light
    } else if k == 2 {
        EncumbranceLevel::Medium
    } else if k == 3 {
        EncumbranceLevel::Heavy
    } else {
        EncumbranceLevel::XHeavy
    }
}

/// Weight thresholds per encumbrance level.
#[derive(Debug, Copy, Clone, PartialEq, Eq, Structural)]
pub struct EncumbranceWeight {
    /// Threshold while unburdened.
    pub none: usize,
    /// Threshold at light load.
    pub light: usize,
    /// Threshold at medium load.
    pub medium: usize,
    /// Threshold at heavy load.
    pub heavy: usize,
    /// Threshold at extra-heavy load.
    pub extra_heavy: usize,
}

impl EncumbranceWeight {
    /// The threshold at a level.
    pub fn value(&self, level: &EncumbranceLevel) -> (r: usize)
        ensures
            r == self.spec_value(*level),
    {
        match level {
            EncumbranceLevel::Unburdened => self.none,
            EncumbranceLevel::Light => self.light,
            EncumbranceLevel::Medium => self.medium,
            EncumbranceLevel::Heavy => self.heavy,
            EncumbranceLevel::XHeavy => self.extra_heavy,
        }
    }

    /// The threshold at a level.
    pub open spec fn spec_value(self, level: EncumbranceLevel) -> usize {
        match level {
            EncumbranceLevel::Unburdened => self.none,
            EncumbranceLevel::Light => self.light,
            EncumbranceLevel::Medium => self.medium,
            EncumbranceLevel::Heavy => self.heavy,
            EncumbranceLevel::XHeavy => self.extra_heavy,
        }
    }

    /// Thresholds from basic lift: one, two, three, six and ten times it.
    pub fn from_basic_lift(lift: usize) -> (r: Self)
        requires
            lift * 10 <= usize::MAX,
        ensures
            r == (EncumbranceWeight {
                none: lift,
                light: (lift * 2) as usize,
                medium: (lift * 3) as usize,
                heavy: (lift * 6) as usize,
                extra_heavy: (lift * 10) as usize,
            }),
    {
        EncumbranceWeight {
            none: lift,
            light: lift * 2,
            medium: lift * 3,
            heavy: lift * 6,
            extra_heavy: lift * 10,
        }
    }
}

/// Move scores per encumbrance level.
#[derive(Debug, Copy, Clone, PartialEq, Eq, Structural)]
pub struct EncumbranceMove {
    /// Move while unburdened.
    pub none: usize,
    /// Move at light load.
    pub light: usize,
    /// Move at medium load.
    pub medium: usize,
    /// Move at heavy load.
    pub heavy: usize,
    /// Move at extra-heavy load.
    pub extra_heavy: usize,
}

impl EncumbranceMove {
    /// The move score at a level.
    pub fn value(&self, level: &EncumbranceLevel) -> (r: usize)
        ensures
            r == self.spec_value(*level),
    {
        match level {
            EncumbranceLevel::Unburdened => self.none,
            EncumbranceLevel::Light => self.light,
            EncumbranceLevel::Medium => self.medium,
            EncumbranceLevel::Heavy => self.heavy,
            EncumbranceLevel::XHeavy => self.extra_heavy,
        }
    }

    /// The move score at a level.
    pub open spec fn spec_value(self, level: EncumbranceLevel) -> usize {
        match level {
            EncumbranceLevel::Unburdened => self.none,
            EncumbranceLevel::Light => self.light,
            EncumbranceLevel::Medium => self.medium,
            EncumbranceLevel::Heavy => self.heavy,
            EncumbranceLevel::XHeavy => self.extra_heavy,
        }
    }

    /// Move scores from basic move: eight, six, four and two tenths of
    /// it, dropping fractions.
    pub fn from_basic_move(mv: usize) -> (r: Self)
        requires
            mv * 4 <= usize::MAX,
        ensures
            r == (EncumbranceMove {
                none: mv,
                light: (mv * 4 / 5) as usize,
                medium: (mv * 3 / 5) as usize,
                heavy: (mv * 2 / 5) as usize,
                extra_heavy: (mv / 5) as usize,
            }),
    {
        EncumbranceMove {
            none: mv,
            light: mv * 4 / 5,
            medium: mv * 3 / 5,
            heavy: mv * 2 / 5,
            extra_heavy: mv / 5,
        }
    }
}

/// Dodge scores per encumbrance level.
#[derive(Debug, Copy, Clone, PartialEq, Eq, Structural)]
pub struct EncumbranceDodge {
    /// Dodge while unburdened.
    pub none: usize,
    /// Dodge at light load.
    pub light: usize,
    /// Dodge at medium load.
    pub medium: usize,
    /// Dodge at heavy load.
    pub heavy: usize,
    /// Dodge at extra-heavy load.
    pub extra_heavy: usize,
}

impl EncumbranceDodge {
    /// The dodge score at a level.
    pub fn value(&self, level: &EncumbranceLevel) -> (r: usize)
        ensures
            r == self.spec_value(*level),
    {
        match level {
            EncumbranceLevel::Unburdened => self.none,
            EncumbranceLevel::Light => self.light,
            EncumbranceLevel::Medium => self.medium,
            EncumbranceLevel::Heavy => self.heavy,
            EncumbranceLevel::XHeavy => self.extra_heavy,
        }
    }

    /// The dodge score at a level.
    pub open spec fn spec_value(self, level: EncumbranceLevel) -> usize {
        match level {
            EncumbranceLevel::Unburdened => self.none,
            EncumbranceLevel::Light => self.light,
            EncumbranceLevel::Medium => self.medium,
            EncumbranceLevel::Heavy => self.heavy,
            EncumbranceLevel::XHeavy => self.extra_heavy,
        }
    }

    /// Dodge scores from the unencumbered dodge, one less per level.
    /// Basic speed has a minimum of one, so the score stays above zero.
    pub fn from_dodge(dodge: usize) -> (r: Self)
        requires
            dodge >= 4,
        ensures
            r == (EncumbranceDodge {
                none: dodge,
                light: (dodge - 1) as usize,
                medium: (dodge - 2) as usize,
                heavy: (dodge - 3) as usize,
                extra_heavy: (dodge - 4) as usize,
            }),
    {
        EncumbranceDodge {
            none: dodge,
            light: dodge - 1,
            medium: dodge - 2,
            heavy: dodge - 3,
            extra_heavy: dodge - 4,
        }
    }
}

/// The encumbrance table: weight, move and dodge per level.
#[derive(Debug, Copy, Clone, PartialEq, Eq, Structural)]
pub struct Encumbrance {
    /// Weight thresholds.
    pub weight: EncumbranceWeight,
    /// Move scores.
    pub enc_move: EncumbranceMove,
    /// Dodge scores.
    pub dodge: EncumbranceDodge,
}

impl Encumbrance {
    /// An encumbrance table from its three measurements.
    pub fn new(weight: EncumbranceWeight, enc_move: EncumbranceMove, dodge: EncumbranceDodge) -> (r:
        Self)
        ensures
            r == (Encumbrance { weight, enc_move, dodge }),
    {
        Encumbrance { weight, enc_move, dodge }
    }

    /// The value of one measurement at one level.
    pub open spec fn spec_value(self, type_of: EncumbranceType, level: EncumbranceLevel) -> usize {
        match type_of {
            EncumbranceType::Weight => self.weight.spec_value(level),
            EncumbranceType::Move => self.enc_move.spec_value(level),
            EncumbranceType::Dodge => self.dodge.spec_value(level),
        }
    }

    /// The value of one measurement at one level.
    pub fn value(&self, type_of: &EncumbranceType, level: &EncumbranceLevel) -> (r: usize)
        ensures
            r == self.spec_value(*type_of, *level),
    {
        match type_of {
            EncumbranceType::Weight => self.weight.value(level),
            EncumbranceType::Move => self.enc_move.value(level),
            EncumbranceType::Dodge => self.dodge.value(level),
        }
    }

    /// The table row for one level: its name and the three values.
    pub fn columns(&self, level: &EncumbranceLevel) -> (r: Vec<String>)
        ensures
            r@.len() == 4,
            r@[0]@ == level.spec_name(),
            r@[1]@ == spec_decimal(self.spec_value(EncumbranceType::Weight, *level) as nat),
            r@[2]@ == spec_decimal(self.spec_value(EncumbranceType::Move, *level) as nat),
            r@[3]@ == spec_decimal(self.spec_value(EncumbranceType::Dodge, *level) as nat),
    {
        let mut out: Vec<String> = Vec::new();
        out.push(level.name());
        out.push(fmt_usize(self.value(&EncumbranceType::Weight, level)));
        out.push(fmt_usize(self.value(&EncumbranceType::Move, level)));
        out.push(fmt_usize(self.value(&EncumbranceType::Dodge, level)));
        out
    }

    /// An iterator over the display rows, one per level.
    pub fn iter_columns(&self) -> (r: EncumbranceIter)
        ensures
            r.values == *self,
            r.level == 0,
    {
        EncumbranceIter { values: *self, level: 0 }
    }
}

/// One displayable encumbrance row.
#[derive(Debug, Clone)]
pub struct EncumbranceField {
    /// The level's name.
    pub name: String,
    /// The weight threshold text.
    pub weight: String,
    /// The move score text.
    pub enc_move: String,
    /// The dodge score text.
    pub dodge: String,
    /// Stable row identity for table views.
    pub id: u64,
}

impl EncumbranceField {
    /// A row from its four texts.
    pub fn new(name: &str, weight: &str, enc_move: &str, dodge: &str) -> (r: Self)
        ensures
            r.name@ == name@,
            r.weight@ == weight@,
            r.enc_move@ == enc_move@,
            r.dodge@ == dodge@,
            r.id == 0,
    {
        EncumbranceField {
            name: name.to_owned(),
            weight: weight.to_owned(),
            enc_move: enc_move.to_owned(),
            dodge: dodge.to_owned(),
            id: 0,
        }
    }
}

/// Steps through the encumbrance levels, yielding one display row each.
#[derive(Debug, Copy, Clone)]
pub struct EncumbranceIter {
    /// The encumbrance table the rows show.
    pub values: Encumbrance,
    /// Position of the next level.
    pub level: usize,
}

impl EncumbranceIter {
    /// The next display row, or nothing past the last level.
    pub fn next(&mut self) -> (r: Option<EncumbranceField>)
        ensures
            old(self).level >= 5 ==> r is None && *final(self) == *old(self),
            old(self).level < 5 ==> {
                let lv = level_at(old(self).level as int);
                &&& final(self).level == old(self).level + 1
                &&& final(self).values == old(self).values
                &&& r is Some
                &&& r->Some_0.name@ == lv.spec_name()
                &&& r->Some_0.weight@ == spec_decimal(
                    old(self).values.spec_value(EncumbranceType::Weight, lv) as nat,
                )
                &&& r->Some_0.enc_move@ == spec_decimal(
                    old(self).values.spec_value(EncumbranceType::Move, lv) as nat,
                )
                &&& r->Some_0.dodge@ == spec_decimal(
                    old(self).values.spec_value(EncumbranceType::Dodge, lv) as nat,
                )
            },
    {
        if self.level >= 5 {
            return None;
        }
        let lv = match self.level {
            0 => EncumbranceLevel::Unburdened,
            1 => EncumbranceLevel::Light,
            2 => EncumbranceLevel::Medium,
            3 => EncumbranceLevel::Heavy,
            _ => EncumbranceLevel::XHeavy,
        };
        let name = lv.name();
        let weight = fmt_usize(self.values.value(&EncumbranceType::Weight, &lv));
        let enc_move = fmt_usize(self.values.value(&EncumbranceType::Move, &lv));
        let dodge = fmt_usize(self.values.value(&EncumbranceType::Dodge, &lv));
        self.level = self.level + 1;
        Some(EncumbranceField { name, weight, enc_move, dodge, id: (self.level - 1) as u64 })
    }
}

} // verus!
