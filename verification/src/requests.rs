//! What the environments answer to the requests of their callers: which steps they
//! refuse, with which message, and what they play otherwise.

use vstd::prelude::*;

use crate::domain::action::{action_from_index, invalid_action_text, RelativeAction};
use crate::domain::rules::food_sample_ok;
use crate::ecs::resources::StepMetrics;
use crate::lite_state::dynamics::{lite_grown_body, lite_seeded_step, lite_step};
use crate::lite_state::types::{SnakeStateLite, StepOutcome};

verus! {

/// Why the environment refuses a step.
#[derive(Debug, Clone, PartialEq, Eq)]
pub enum StepRefusal {
    /// The episode has ended; it must be reset before the next step.
    EpisodeComplete,
    /// The action value is not 0, 1 or 2; the message names it.
    InvalidAction(String),
}

/// The message of a finished episode's refusal.
pub open spec fn episode_complete_text() -> Seq<char> {
    "episode is complete; call reset() before step()"@
}

impl StepRefusal {
    /// The text shown to the caller.
    pub fn message(&self) -> (msg: String)
        ensures
            msg@ == match self {
                StepRefusal::EpisodeComplete => episode_complete_text(),
                StepRefusal::InvalidAction(m) => m@,
            },
    {
        match self {
            StepRefusal::EpisodeComplete => {
                proof {
                    reveal_strlit("episode is complete; call reset() before step()");
                }
                String::from_str("episode is complete; call reset() before step()")
            },
            StepRefusal::InvalidAction(m) => m.clone(),
        }
    }
}

/// Decides a step request of the entity-component environment: a finished episode (one
/// that ended by death or was cut short) refuses every step until it is reset; then an
/// action value other than 0, 1 or 2 is refused with a message that names it; any other
/// request plays the action it names.
pub fn check_env_step(metrics: &StepMetrics, action: u8) -> (r: Result<RelativeAction, StepRefusal>)
    ensures
        match r {
            Ok(a) => !metrics.terminated && !metrics.truncated && action_from_index(action) == Some(a),
            Err(StepRefusal::EpisodeComplete) => metrics.terminated || metrics.truncated,
            Err(StepRefusal::InvalidAction(msg)) => !metrics.terminated && !metrics.truncated
                && action_from_index(action) is None && msg@ == invalid_action_text(action),
        },
{
    if metrics.terminated || metrics.truncated {
        return Err(StepRefusal::EpisodeComplete);
    }
    match RelativeAction::try_from(action) {
        Ok(a) => Ok(a),
        Err(msg) => Err(StepRefusal::InvalidAction(msg)),
    }
}

/// The message of the search engine's refusal of an action value.
pub open spec fn invalid_action_short_text() -> Seq<char> {
    "Invalid action"@
}

/// Plays a step request on the search engine's state: an action value other than 0, 1
/// or 2 is refused with "Invalid action" and changes nothing; any other plays the
/// action it names, as `lite_step` describes (a finished episode stays as it is).
pub fn play_wire_action(state: &mut SnakeStateLite, action: u8) -> (r: Result<StepOutcome, String>)
    requires
        old(state).wf(),
    ensures
        final(state).wf(),
        match r {
            Ok(out) => match action_from_index(action) {
                Some(a) => {
                    &&& (final(state)@, out) == lite_step(old(state)@, a, final(state).food)
                    &&& out.ate_food ==> food_sample_ok(
                        final(state).food,
                        final(state).width,
                        final(state).height,
                        lite_grown_body(old(state)@, a),
                    )
                    &&& !out.ate_food ==> final(state).rng == old(state).rng
                    &&& (final(state)@, final(state).rng, out) == lite_seeded_step(old(state)@, old(state).rng, a)
                },
                None => false,
            },
            Err(msg) => action_from_index(action) is None && msg@ == invalid_action_short_text()
                && *final(state) == *old(state),
        },
{
    match RelativeAction::try_from(action) {
        Ok(a) => Ok(state.apply_in_place(a)),
        Err(_) => {
            proof {
                reveal_strlit("Invalid action");
            }
            Err(String::from_str("Invalid action"))
        },
    }
}

/// The message of the search engine's refusal to search a finished episode.
pub open spec fn search_terminal_text() -> Seq<char> {
    "Episode is terminal; call reset()"@
}

/// Decides a search request: a finished episode is refused, any other may be searched.
pub fn check_search(state: &SnakeStateLite) -> (r: Result<(), String>)
    ensures
        match r {
            Ok(_) => !state.terminated && !state.truncated,
            Err(msg) => (state.terminated || state.truncated) && msg@ == search_terminal_text(),
        },
{
    if state.terminated || state.truncated {
        proof {
            reveal_strlit("Episode is terminal; call reset()");
        }
        return Err(String::from_str("Episode is terminal; call reset()"));
    }
    Ok(())
}

/// The starvation limit of a new search engine: the one given, or else twice the
/// number of cells, cut to 32 bits as a cast does.
pub fn effective_starvation_limit(limit: Option<u32>, width: usize, height: usize) -> (n: u32)
    requires
        width as int * height as int * 2 <= usize::MAX,
    ensures
        n == match limit {
            Some(l) => l as int,
            None => (width as int * height as int * 2) % 0x1_0000_0000,
        },
{
    match limit {
        Some(l) => l,
        None => {
            proof {
                assert(width as int * height as int <= width as int * height as int * 2) by (nonlinear_arith)
                    requires
                        width as int * height as int * 2 <= usize::MAX,
                ;
            }
            let cells: usize = width * height * 2;
            (cells as u64 % 0x1_0000_0000) as u32
        },
    }
}

} // verus!
