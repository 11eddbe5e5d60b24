//! Combat-turn choices: maneuvers, attack options, postures.
//!
//! Combat runs second by second, participants acting in turn order by
//! basic speed.  These enumerations classify what a character may do with
//! a turn; they carry no behaviour here, only the closed sets of choices
//! the sheet and the rules reference.

use vstd::prelude::*;

verus! {

/// What a character does with a combat turn.
#[derive(Debug, Copy, Clone, PartialEq, Eq, Structural)]
pub enum Manuever {
    /// Full-turn aim with a ranged weapon; bracing and extra seconds add
    /// accuracy, an active defense or an unabsorbed injury spoils it.
    Aim,
    /// Attack with no active defense, moving only forward up to half
    /// move.
    AllOutAttack,
    /// Defend with everything, forgoing the attack.
    AllOutDefense,
    /// An armed or unarmed attack on a target in reach, with a step.
    Attack,
    /// Change posture: rising from lying takes two turns through sitting
    /// or kneeling.
    ChangePosture,
    /// Concentrate on a mental action.
    Concentrate,
    /// Do nothing; may roll to recover from stun at turn's end.
    DoNothing,
    /// The melee equivalent of aim: study one opponent for a bonus.
    Evaluate,
    /// A quick contest of melee skill; the margin of success penalises
    /// the foe's ensuing defense.
    Feint,
    /// Move up to the full move score and take no other action.
    Move,
    /// Move and attack at a penalty.
    MoveAndAttack,
    /// Ready a weapon or item.
    Ready,
    /// Wait for a stated trigger, then act.
    Wait,
}

/// Options for an all-out melee attack.
#[derive(Debug, Copy, Clone, PartialEq, Eq, Structural)]
pub enum AllOutMeleeAttack {
    /// One attack with a large bonus to hit.
    Determined,
    /// Two attacks against the same foe, both weapons ready.
    Double,
    /// A feint and an attack, the feint's bonus applied at once.
    Feint,
    /// Extra damage on strength-based attacks.
    Strong,
}

/// Options for an all-out ranged attack.
#[derive(Debug, Copy, Clone, PartialEq, Eq, Structural)]
pub enum AllOutRangedAttack {
    /// One attack with a small bonus to hit.
    Determined,
    /// A full turn of suppression fire; needs a high rate of fire.
    SuppressionFire,
}

/// How a skill roll is judged.
#[derive(Debug, Copy, Clone, PartialEq, Eq, Structural)]
pub enum Success {
    /// A check against a set level or threshold.
    Check,
    /// The margin by which a roll beats the threshold.
    Margin,
}

/// Actions free within any maneuver.
#[derive(Debug, Copy, Clone, PartialEq, Eq, Structural)]
pub enum FreeAction {
    /// Speak briefly.
    Talk,
    /// Keep a running spell alive.
    MaintainSpell,
    /// Let go of a held item.
    DropItem,
    /// Crouch; standing back up is also free.
    Crouch,
}

/// Body positions a character can hold.
#[derive(Debug, Copy, Clone, PartialEq, Eq, Structural)]
pub enum Posture {
    /// Standing upright.
    Standing,
    /// Sitting.
    Sitting,
    /// Kneeling.
    Kneeling,
    /// On hands and knees.
    Crawling,
    /// Lying face up.
    LyingProne,
    /// Lying face down.
    LyingFaceDown,
}

} // verus!
