//! The accept/regenerate interaction: classifying a typed answer and the
//! state machine `Generated -> AwaitingDecision -> {Accepted, Regenerate}`,
//! with `Regenerate` leading back to `Generated`.  `Accepted` is the
//! terminal state.

use crate::text::{trim_str, trimmed};
use vstd::prelude::*;

verus! {

/// What one typed answer means.
#[derive(Clone, Copy, Debug, PartialEq, Eq, Structural)]
pub enum Decision {
    /// The affirmative token: the passphrase is kept.
    Accept,
    /// The negative token: the passphrase is discarded and regenerated.
    Reject,
    /// Anything else: re-prompt, with no side effects.
    Unrecognized,
}

/// The states of the interaction loop.
#[derive(Clone, Copy, Debug, PartialEq, Eq, Structural)]
pub enum LoopState {
    /// A passphrase was just generated.
    Generated,
    /// The passphrase was presented; an answer is awaited.
    AwaitingDecision,
    /// The passphrase was accepted; terminal.
    Accepted,
    /// The passphrase was discarded; a fresh generation is due.
    Regenerate,
}

/// What happened since the last state was entered.
#[derive(Clone, Copy, Debug, PartialEq, Eq, Structural)]
pub enum LoopEvent {
    /// The passphrase was presented; with `interactive` false no answer
    /// will be asked for.
    Presented { interactive: bool },
    /// An answer was read and classified.
    Answered { decision: Decision },
    /// A fresh passphrase was generated.
    Regenerated,
}

/// The meaning of a typed answer: the trimmed affirmative token accepts,
/// the trimmed negative token rejects, and everything else is
/// unrecognized.
pub open spec fn classify(s: Seq<char>) -> Decision {
    if trimmed(s) == seq!['y'] {
        Decision::Accept
    } else if trimmed(s) == seq!['n'] {
        Decision::Reject
    } else {
        Decision::Unrecognized
    }
}

/// The loop's transition function.  An event that cannot occur in the
/// given state changes nothing; in particular `Accepted` is terminal.
pub open spec fn next_state_spec(state: LoopState, event: LoopEvent) -> LoopState {
    match (state, event) {
        (LoopState::Generated, LoopEvent::Presented { interactive }) => if interactive {
            LoopState::AwaitingDecision
        } else {
            LoopState::Accepted
        },
        (LoopState::AwaitingDecision, LoopEvent::Answered { decision }) => match decision {
            Decision::Accept => LoopState::Accepted,
            Decision::Reject => LoopState::Regenerate,
            Decision::Unrecognized => LoopState::AwaitingDecision,
        },
        (LoopState::Regenerate, LoopEvent::Regenerated) => LoopState::Generated,
        _ => state,
    }
}

/// Law: an unrecognized answer never changes the state — the loop
/// re-prompts with no side effects.
pub proof fn lemma_unrecognized_no_effect(state: LoopState)
    ensures
        next_state_spec(state, LoopEvent::Answered { decision: Decision::Unrecognized })
            == state,
{
}

/// Classifies one line of typed input.
pub fn classify_input(input: &str) -> (r: Decision)
    ensures
        r == classify(input@),
{
    let t = trim_str(input);
    let n = t.as_str().unicode_len();
    if n == 1 {
        let c = t.as_str().get_char(0);
        if c == 'y' {
            proof {
                assert(trimmed(input@) =~= seq!['y']);
            }
            return Decision::Accept;
        }
        if c == 'n' {
            proof {
                assert(trimmed(input@) =~= seq!['n']);
            }
            return Decision::Reject;
        }
    }
    proof {
        assert(trimmed(input@) != seq!['y']);
        assert(trimmed(input@) != seq!['n']);
    }
    Decision::Unrecognized
}

/// Advances the interaction loop by one event.
pub fn next_state(state: LoopState, event: LoopEvent) -> (r: LoopState)
    ensures
        r == next_state_spec(state, event),
{
    match (state, event) {
        (LoopState::Generated, LoopEvent::Presented { interactive }) => {
            if interactive {
                LoopState::AwaitingDecision
            } else {
                LoopState::Accepted
            }
        },
        (LoopState::AwaitingDecision, LoopEvent::Answered { decision }) => {
            match decision {
                Decision::Accept => LoopState::Accepted,
                Decision::Reject => LoopState::Regenerate,
                Decision::Unrecognized => LoopState::AwaitingDecision,
            }
        },
        (LoopState::Regenerate, LoopEvent::Regenerated) => LoopState::Generated,
        (s, _) => s,
    }
}

} // verus!
