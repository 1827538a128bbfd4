use genpwd::generate::PassGen;
use genpwd::interact::{classify_input, next_state, Decision, LoopEvent, LoopState};

fn words(list: &[&str]) -> Vec<String> {
    list.iter().map(|w| w.to_string()).collect()
}

#[test]
fn classification_of_tokens() {
    assert_eq!(classify_input("y"), Decision::Accept);
    assert_eq!(classify_input("n"), Decision::Reject);
    assert_eq!(classify_input(" y\n"), Decision::Accept);
    assert_eq!(classify_input("\tn \r\n"), Decision::Reject);
    assert_eq!(classify_input("Y"), Decision::Unrecognized);
    assert_eq!(classify_input("yes"), Decision::Unrecognized);
    assert_eq!(classify_input(""), Decision::Unrecognized);
    assert_eq!(classify_input("x"), Decision::Unrecognized);
}

#[test]
fn non_interactive_is_immediately_accepted() {
    let s = next_state(
        LoopState::Generated,
        LoopEvent::Presented { interactive: false },
    );
    assert_eq!(s, LoopState::Accepted);
}

#[test]
fn accepted_is_terminal() {
    for event in [
        LoopEvent::Presented { interactive: true },
        LoopEvent::Answered {
            decision: Decision::Reject,
        },
        LoopEvent::Regenerated,
    ] {
        assert_eq!(next_state(LoopState::Accepted, event), LoopState::Accepted);
    }
}

#[test]
fn invalid_then_reject_then_accept() {
    // Simulates the input sequence ["x", "n", "y"] against a two-step
    // generation.
    let mut g = PassGen::new(words(&["alpha", "bravo", "delta"])).unwrap();
    let mut pass = g.generate_pass(2, &None, &None);
    let first = pass.clone();
    let mut state = next_state(
        LoopState::Generated,
        LoopEvent::Presented { interactive: true },
    );
    assert_eq!(state, LoopState::AwaitingDecision);

    let mut regenerations = 0;
    let mut prompts = 0;
    for input in ["x", "n", "y"] {
        assert_eq!(state, LoopState::AwaitingDecision);
        prompts += 1;
        let decision = classify_input(input);
        state = next_state(state, LoopEvent::Answered { decision });
        if state == LoopState::Regenerate {
            pass.clear();
            pass = g.generate_pass(2, &None, &None);
            regenerations += 1;
            state = next_state(state, LoopEvent::Regenerated);
            assert_eq!(state, LoopState::Generated);
            state = next_state(state, LoopEvent::Presented { interactive: true });
        }
    }
    assert_eq!(state, LoopState::Accepted);
    assert_eq!(prompts, 3);
    assert_eq!(regenerations, 1);
    // The regenerated passphrase is a fresh, well-formed two-word draw;
    // it may coincide with the first only by legitimate re-sampling.
    assert_eq!(pass.len(), 10);
    assert_eq!(first.len(), 10);
    for k in 0..2 {
        let frag = &pass[5 * k..5 * (k + 1)];
        assert!(frag == "Alpha" || frag == "Bravo" || frag == "Delta");
    }
}
