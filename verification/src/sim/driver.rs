//! The loop that drives a rules engine through one match. The engine runs
//! outside; each of its step results is handed to `MatchLoop::decide`, which
//! says what to do next, and `MatchLoop::finish_step` counts the step.
use vstd::prelude::*;
use crate::model::{Action, Phase, PlayerId};

verus! {

/// The most actions that one match may apply.
pub const ACTION_BUDGET: usize = 5000;

/// The most engine steps that one match may take.
pub const MAX_STEPS: usize = 5000;

/// What one engine step reported.
#[derive(Clone, Copy, PartialEq, Eq, Debug, Structural)]
pub enum StepOutcome {
    /// Something happened that needs no answer.
    Event,
    /// The match is over.
    GameOver { winner: PlayerId },
    /// A player must answer a prompt.
    Prompt { for_player: PlayerId },
    /// Nothing is pending; the current player may act in its phase.
    Continue { phase: Phase, current: PlayerId },
}

/// What the loop does with a step result.
#[derive(Clone, Copy, PartialEq, Eq, Debug, Structural)]
pub enum LoopStep {
    /// Take the next step.
    Advance,
    /// Stop: the match has a winner.
    Finished { winner: PlayerId },
    /// Ask the player for its prompt answers and apply the first accepted one.
    AnswerPrompt { player: PlayerId },
    /// Ask the player for its free actions and apply the first accepted one.
    ActFreely { player: PlayerId },
}

/// What the loop does with a step result: a prompt is answered by the
/// player it is for; in the main and attack phases the current player acts;
/// otherwise the loop steps on.
pub open spec fn step_for(outcome: StepOutcome) -> LoopStep {
    match outcome {
        StepOutcome::Event => LoopStep::Advance,
        StepOutcome::GameOver { winner } => LoopStep::Finished { winner },
        StepOutcome::Prompt { for_player } => LoopStep::AnswerPrompt { player: for_player },
        StepOutcome::Continue { phase, current } => if phase == Phase::Main || phase == Phase::Attack {
            LoopStep::ActFreely { player: current }
        } else {
            LoopStep::Advance
        },
    }
}

/// The counters of the loop: steps left and actions left.
#[derive(Clone, Copy, PartialEq, Eq, Debug, Structural)]
pub struct MatchLoop {
    pub steps_left: usize,
    pub actions_budget: usize,
}

/// The counters after one step, where `acted` says whether an action was
/// applied in it.
pub open spec fn after_step(m: MatchLoop, acted: bool) -> MatchLoop {
    MatchLoop {
        steps_left: (m.steps_left - 1) as usize,
        actions_budget: if acted && m.actions_budget > 0 { (m.actions_budget - 1) as usize } else { m.actions_budget },
    }
}

pub open spec fn running(m: MatchLoop) -> bool {
    m.steps_left > 0 && m.actions_budget > 0
}

/// The counters after a run of steps, in order.
pub open spec fn after_steps(m: MatchLoop, acted: Seq<bool>) -> MatchLoop
    decreases acted.len(),
{
    if acted.len() == 0 {
        m
    } else {
        after_step(after_steps(m, acted.drop_last()), acted.last())
    }
}

/// Whether the loop was running before each step of the run.
pub open spec fn ran_throughout(m: MatchLoop, acted: Seq<bool>) -> bool {
    forall|k: int| 0 <= k < acted.len() ==> #[trigger] running(after_steps(m, acted.take(k)))
}

/// How many steps of the run applied an action.
pub open spec fn count_acted(acted: Seq<bool>) -> int
    decreases acted.len(),
{
    if acted.len() == 0 {
        0
    } else {
        count_acted(acted.drop_last()) + if acted.last() { 1int } else { 0 }
    }
}

impl MatchLoop {
    /// A loop that may take `max_steps` steps and apply 5000 actions.
    pub fn new(max_steps: usize) -> (r: MatchLoop)
        ensures
            r.steps_left == max_steps,
            r.actions_budget == ACTION_BUDGET,
    {
        MatchLoop { steps_left: max_steps, actions_budget: ACTION_BUDGET }
    }

    /// Whether the loop takes another step.
    pub fn is_running(&self) -> (r: bool)
        ensures
            r == running(*self),
    {
        self.steps_left > 0 && self.actions_budget > 0
    }

    /// What to do with a step result.
    pub fn decide(&self, outcome: &StepOutcome) -> (r: LoopStep)
        ensures
            r == step_for(*outcome),
    {
        match outcome {
            StepOutcome::Event => LoopStep::Advance,
            StepOutcome::GameOver { winner } => LoopStep::Finished { winner: *winner },
            StepOutcome::Prompt { for_player } => LoopStep::AnswerPrompt { player: *for_player },
            StepOutcome::Continue { phase, current } => {
                match phase {
                    Phase::Main | Phase::Attack => LoopStep::ActFreely { player: *current },
                    _ => LoopStep::Advance,
                }
            },
        }
    }

    /// Counts a finished step; `acted` says whether an action was applied in it.
    pub fn finish_step(&mut self, acted: bool)
        requires
            old(self).steps_left > 0,
        ensures
            *final(self) == after_step(*old(self), acted),
    {
        if acted {
            self.actions_budget = self.actions_budget.saturating_sub(1);
        }
        self.steps_left = self.steps_left - 1;
    }
}

/// The answers to try: the player's own candidates, then ending the turn.
pub fn with_end_turn(candidates: Vec<Action>) -> (r: Vec<Action>)
    ensures
        r@ == candidates@.push(Action::EndTurn),
{
    let mut r = candidates;
    r.push(Action::EndTurn);
    r
}

/// A loop that was running before each of its steps took at most as many
/// steps as it started with, and applied at most as many actions as its
/// budget: every match ends within `max_steps` steps and 5000 actions.
pub proof fn lemma_loop_is_bounded(m: MatchLoop, acted: Seq<bool>)
    requires
        ran_throughout(m, acted),
    ensures
        acted.len() <= m.steps_left,
        count_acted(acted) <= m.actions_budget,
        after_steps(m, acted).steps_left == m.steps_left - acted.len(),
        after_steps(m, acted).actions_budget == m.actions_budget - count_acted(acted),
    decreases acted.len(),
{
    if acted.len() > 0 {
        let prefix = acted.drop_last();
        assert forall|k: int| 0 <= k < prefix.len() implies #[trigger] running(after_steps(m, prefix.take(k))) by {
            assert(prefix.take(k) =~= acted.take(k));
            assert(running(after_steps(m, acted.take(k))));
        }
        lemma_loop_is_bounded(m, prefix);
        assert(acted.take(prefix.len() as int) =~= prefix);
        assert(running(after_steps(m, acted.take(prefix.len() as int))));
    }
}

} // verus!
