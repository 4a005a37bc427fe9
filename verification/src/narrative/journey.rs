//! Mapping of reduction steps onto the stages of the hero's journey.

use vstd::prelude::*;

verus! {

/// Stages of the hero's journey as encoded by the narrative engine.
#[derive(Debug, Clone, Copy, PartialEq, Eq, Structural)]
pub enum HeroStage {
    OrdinaryWorld,
    CallToAdventure,
    RefusalOfTheCall,
    MeetingTheMentor,
    CrossingTheThreshold,
    TestsAlliesEnemies,
    ApproachToTheInmostCave,
    Ordeal,
    Reward,
    RoadBack,
    Resurrection,
    ReturnWithTheElixir,
}

/// The stage at a position of the journey; positions past the end map to the
/// last stage.
pub open spec fn stage_at(index: int) -> HeroStage {
    if index <= 0 {
        HeroStage::OrdinaryWorld
    } else if index == 1 {
        HeroStage::CallToAdventure
    } else if index == 2 {
        HeroStage::RefusalOfTheCall
    } else if index == 3 {
        HeroStage::MeetingTheMentor
    } else if index == 4 {
        HeroStage::CrossingTheThreshold
    } else if index == 5 {
        HeroStage::TestsAlliesEnemies
    } else if index == 6 {
        HeroStage::ApproachToTheInmostCave
    } else if index == 7 {
        HeroStage::Ordeal
    } else if index == 8 {
        HeroStage::Reward
    } else if index == 9 {
        HeroStage::RoadBack
    } else if index == 10 {
        HeroStage::Resurrection
    } else {
        HeroStage::ReturnWithTheElixir
    }
}

/// Position on the journey of step `step` out of `total`: the steps are spread
/// evenly over the eleven transitions between the twelve stages, and a journey
/// of no steps stays at the start.
pub open spec fn stage_index(step: nat, total: nat) -> int {
    if total == 0 {
        0
    } else if (step as int) * 11 / (total as int) > 11 {
        11
    } else {
        (step as int) * 11 / (total as int)
    }
}

/// Exec counterpart of [`stage_at`].
fn stage_from_index(index: usize) -> (stage: HeroStage)
    ensures
        stage == stage_at(index as int),
{
    if index == 0 {
        HeroStage::OrdinaryWorld
    } else if index == 1 {
        HeroStage::CallToAdventure
    } else if index == 2 {
        HeroStage::RefusalOfTheCall
    } else if index == 3 {
        HeroStage::MeetingTheMentor
    } else if index == 4 {
        HeroStage::CrossingTheThreshold
    } else if index == 5 {
        HeroStage::TestsAlliesEnemies
    } else if index == 6 {
        HeroStage::ApproachToTheInmostCave
    } else if index == 7 {
        HeroStage::Ordeal
    } else if index == 8 {
        HeroStage::Reward
    } else if index == 9 {
        HeroStage::RoadBack
    } else if index == 10 {
        HeroStage::Resurrection
    } else {
        HeroStage::ReturnWithTheElixir
    }
}

/// Compute the hero stage for a given reduction step.
///
/// `step` is the zero-based index of the current step and `total`
/// is the total number of reduction steps to perform.
pub fn stage_for_step(step: usize, total: usize) -> (stage: HeroStage)
    ensures
        stage == stage_at(stage_index(step as nat, total as nat)),
{
    if total == 0 {
        return HeroStage::OrdinaryWorld;
    }
    if step >= total {
        assert((step as int) * 11 / (total as int) >= 11) by (nonlinear_arith)
            requires
                step >= total,
                total > 0,
        ;
        return HeroStage::ReturnWithTheElixir;
    }
    let scaled: u128 = step as u128 * 11u128;
    let index: u128 = scaled / (total as u128);
    assert(index < 11) by (nonlinear_arith)
        requires
            index == (step as int) * 11 / (total as int),
            step < total,
            total > 0,
    ;
    stage_from_index(index as usize)
}

/// The first step of any journey is in the ordinary world.
pub proof fn lemma_first_step_is_ordinary(total: nat)
    ensures
        stage_at(stage_index(0, total)) == HeroStage::OrdinaryWorld,
{
    if total > 0 {
        assert(0int * 11 / (total as int) == 0) by (nonlinear_arith)
            requires
                total > 0,
        ;
    }
}

/// A step at or past the end of a non-empty journey returns with the elixir.
pub proof fn lemma_final_step_returns(step: nat, total: nat)
    requires
        0 < total <= step,
    ensures
        stage_at(stage_index(step, total)) == HeroStage::ReturnWithTheElixir,
{
    assert((step as int) * 11 / (total as int) >= 11) by (nonlinear_arith)
        requires
            step >= total,
            total > 0,
    ;
}

/// Later steps never fall back to an earlier position on the journey.
pub proof fn lemma_stage_index_monotonic(a: nat, b: nat, total: nat)
    requires
        a <= b,
    ensures
        stage_index(a, total) <= stage_index(b, total),
{
    if total > 0 {
        assert((a as int) * 11 / (total as int) <= (b as int) * 11 / (total as int)) by (nonlinear_arith)
            requires
                a <= b,
                total > 0,
        ;
    }
}

} // verus!
