use matchstick::transition::Transition;
use matchstick::transition::TransitionSequence;

#[test]
fn move_one_in_one_symbol_from_default() {
    let default_transition_sequence = TransitionSequence::with_n_default_transitions(1);
    let expected_transition_sequence = vec![TransitionSequence {
        transitions: vec![Transition { remove: 1, add: 1 }],
    }];

    assert_eq!(
        expected_transition_sequence,
        default_transition_sequence.move_one()
    );
}

#[test]
fn move_one_in_two_symbols_from_default() {
    let default_transition_sequence = TransitionSequence::with_n_default_transitions(2);
    let expected_transition_sequences = vec![
        TransitionSequence {
            transitions: vec![
                Transition { remove: 1, add: 1 },
                Transition { remove: 0, add: 0 },
            ],
        },
        TransitionSequence {
            transitions: vec![
                Transition { remove: 1, add: 0 },
                Transition { remove: 0, add: 1 },
            ],
        },
        TransitionSequence {
            transitions: vec![
                Transition { remove: 0, add: 1 },
                Transition { remove: 1, add: 0 },
            ],
        },
        TransitionSequence {
            transitions: vec![
                Transition { remove: 0, add: 0 },
                Transition { remove: 1, add: 1 },
            ],
        },
    ];

    assert_eq!(
        expected_transition_sequences,
        default_transition_sequence.move_one()
    );
}

#[test]
fn move_one_in_three_symbols_from_default() {
    let default_transition_sequence = TransitionSequence::with_n_default_transitions(3);
    let expected_transition_sequence = vec![
        TransitionSequence {
            transitions: vec![
                Transition { remove: 1, add: 1 },
                Transition { remove: 0, add: 0 },
                Transition { remove: 0, add: 0 },
            ],
        },
        TransitionSequence {
            transitions: vec![
                Transition { remove: 1, add: 0 },
                Transition { remove: 0, add: 1 },
                Transition { remove: 0, add: 0 },
            ],
        },
        TransitionSequence {
            transitions: vec![
                Transition { remove: 1, add: 0 },
                Transition { remove: 0, add: 0 },
                Transition { remove: 0, add: 1 },
            ],
        },
        TransitionSequence {
            transitions: vec![
                Transition { remove: 0, add: 1 },
                Transition { remove: 1, add: 0 },
                Transition { remove: 0, add: 0 },
            ],
        },
        TransitionSequence {
            transitions: vec![
                Transition { remove: 0, add: 0 },
                Transition { remove: 1, add: 1 },
                Transition { remove: 0, add: 0 },
            ],
        },
        TransitionSequence {
            transitions: vec![
                Transition { remove: 0, add: 0 },
                Transition { remove: 1, add: 0 },
                Transition { remove: 0, add: 1 },
            ],
        },
        TransitionSequence {
            transitions: vec![
                Transition { remove: 0, add: 1 },
                Transition { remove: 0, add: 0 },
                Transition { remove: 1, add: 0 },
            ],
        },
        TransitionSequence {
            transitions: vec![
                Transition { remove: 0, add: 0 },
                Transition { remove: 0, add: 1 },
                Transition { remove: 1, add: 0 },
            ],
        },
        TransitionSequence {
            transitions: vec![
                Transition { remove: 0, add: 0 },
                Transition { remove: 0, add: 0 },
                Transition { remove: 1, add: 1 },
            ],
        },
    ];

    assert_eq!(
        expected_transition_sequence,
        default_transition_sequence.move_one()
    );
}

#[test]
fn move_one_in_one_symbol_from_non_default() {
    let transition_sequence = TransitionSequence {
        transitions: vec![Transition { remove: 5, add: 2 }],
    };
    let expected_transition_sequence = vec![TransitionSequence {
        transitions: vec![Transition { remove: 6, add: 3 }],
    }];

    assert_eq!(expected_transition_sequence, transition_sequence.move_one());
}

#[test]
fn move_two_in_two_symbols_from_default() {
    let default_transition_sequence = vec![TransitionSequence::with_n_default_transitions(2)];

    let expected_transition_sequences = vec![
        TransitionSequence {
            transitions: vec![
                Transition { remove: 2, add: 2 },
                Transition { remove: 0, add: 0 },
            ],
        },
        TransitionSequence {
            transitions: vec![
                Transition { remove: 2, add: 1 },
                Transition { remove: 0, add: 1 },
            ],
        },
        TransitionSequence {
            transitions: vec![
                Transition { remove: 1, add: 2 },
                Transition { remove: 1, add: 0 },
            ],
        },
        TransitionSequence {
            transitions: vec![
                Transition { remove: 1, add: 1 },
                Transition { remove: 1, add: 1 },
            ],
        },
        TransitionSequence {
            transitions: vec![
                Transition { remove: 2, add: 1 },
                Transition { remove: 0, add: 1 },
            ],
        },
        TransitionSequence {
            transitions: vec![
                Transition { remove: 2, add: 0 },
                Transition { remove: 0, add: 2 },
            ],
        },
        TransitionSequence {
            transitions: vec![
                Transition { remove: 1, add: 1 },
                Transition { remove: 1, add: 1 },
            ],
        },
        TransitionSequence {
            transitions: vec![
                Transition { remove: 1, add: 0 },
                Transition { remove: 1, add: 2 },
            ],
        },
        TransitionSequence {
            transitions: vec![
                Transition { remove: 1, add: 2 },
                Transition { remove: 1, add: 0 },
            ],
        },
        TransitionSequence {
            transitions: vec![
                Transition { remove: 1, add: 1 },
                Transition { remove: 1, add: 1 },
            ],
        },
        TransitionSequence {
            transitions: vec![
                Transition { remove: 0, add: 2 },
                Transition { remove: 2, add: 0 },
            ],
        },
        TransitionSequence {
            transitions: vec![
                Transition { remove: 0, add: 1 },
                Transition { remove: 2, add: 1 },
            ],
        },
        TransitionSequence {
            transitions: vec![
                Transition { remove: 1, add: 1 },
                Transition { remove: 1, add: 1 },
            ],
        },
        TransitionSequence {
            transitions: vec![
                Transition { remove: 1, add: 0 },
                Transition { remove: 1, add: 2 },
            ],
        },
        TransitionSequence {
            transitions: vec![
                Transition { remove: 0, add: 1 },
                Transition { remove: 2, add: 1 },
            ],
        },
        TransitionSequence {
            transitions: vec![
                Transition { remove: 0, add: 0 },
                Transition { remove: 2, add: 2 },
            ],
        },
    ];

    assert_eq!(
        expected_transition_sequences,
        TransitionSequence::move_n_recursive(2, default_transition_sequence)
    );
}

#[test]
fn move_n_with_zero_movements_is_the_zero_plan() {
    let expected = vec![TransitionSequence::with_n_default_transitions(3)];
    assert_eq!(expected, TransitionSequence::move_n(0, 3));
}
