use matchstick::equation::Equation;
use matchstick::equation::EquationPattern;
use matchstick::puzzle::Puzzle;
use matchstick::puzzle::Riddle;
use matchstick::puzzle::SolutionWrapper;
use matchstick::symbol::Symbol;
use matchstick::symbol::SymbolFilter;
use matchstick::transition::Transition;
use matchstick::transition::TransitionSequence;

#[test]
fn zero_budget_reproduces_the_equation() {
    let equation = Equation::new_from_symbols(vec![
        Symbol::Seven,
        Symbol::Minus,
        Symbol::Three,
        Symbol::Equal,
        Symbol::FourVar1,
    ]);
    assert_eq!(vec![equation.clone()], equation.move_n_matchsticks(0));
}

#[test]
fn measured_edit_round_trip_on_one_position() {
    // Nine is Three plus the upper-left segment: the edit adds one segment.
    let plan = TransitionSequence {
        transitions: vec![Transition { remove: 0, add: 1 }],
    };
    let equation = Equation::new_from_symbols(vec![Symbol::Three]);
    let expected = vec![Equation::new_from_symbols(vec![Symbol::Nine])];
    assert_eq!(Ok(expected), equation.apply_transition_sequence(plan));
}

#[test]
fn mismatched_plan_shape_is_an_error() {
    let plan = TransitionSequence {
        transitions: vec![
            Transition { remove: 0, add: 0 },
            Transition { remove: 0, add: 0 },
        ],
    };
    let equation = Equation::new_from_symbols(vec![Symbol::Three]);
    assert_eq!(Err(()), equation.apply_transition_sequence(plan));
}

#[test]
fn seven_minus_three_riddle_has_one_solution() {
    // "7-3=4" with one relocation: the top of 7 moves onto the minus,
    // giving "1+3=4".
    let riddle = Riddle::new(
        Equation::new_from_symbols(vec![
            Symbol::Seven,
            Symbol::Minus,
            Symbol::Three,
            Symbol::Equal,
            Symbol::FourVar1,
        ]),
        1,
    );
    let mut puzzle = Puzzle::new_from_riddle(riddle);

    assert_eq!(1, puzzle.search_and_set_solution());
    let expected_solution_equations = vec![Equation::new_from_symbols(vec![
        Symbol::OneVar1,
        Symbol::Plus,
        Symbol::Three,
        Symbol::Equal,
        Symbol::FourVar1,
    ])];
    match puzzle.get_wrapped_solution() {
        SolutionWrapper::ProgrammaticallySet(solution) => {
            assert_eq!(&expected_solution_equations, solution.get_solution_equations());
        }
        other => panic!("expected a solution found by the search, got {:?}", other),
    }
}

#[test]
fn pattern_expansion_count_is_the_product_of_choice_counts() {
    let pattern = EquationPattern::new_from_symbol_filters(vec![
        SymbolFilter::IsNumber,
        SymbolFilter::IsOperator,
    ]);
    assert_eq!(39, pattern.derive_concrete_equations().len());
}

#[test]
fn to_plain_text_writes_one_character_per_symbol() {
    let equation = Equation::new_from_symbols(vec![
        Symbol::Seven,
        Symbol::Minus,
        Symbol::Three,
        Symbol::Equal,
        Symbol::FourVar2,
    ]);
    assert_eq!("7-3=4", equation.to_plain_text());
}

#[test]
fn draw_an_equation_side_by_side() {
    let equation = Equation::new_from_symbols(vec![
        Symbol::Two,
        Symbol::Plus,
        Symbol::Three,
        Symbol::Equal,
        Symbol::Five,
    ]);
    let expected = " ___       ___       ___ \n    |         | _ _ |    \n _ _| _|_  _ _| _ _ |_ _ \n|      |      |         |\n|___       ___|      ___|";
    assert_eq!(expected, equation.draw());
}

fn validate(symbols: Vec<Symbol>) -> Result<(), ()> {
    Equation::new_from_symbols(symbols).mathematically_validate()
}

#[test]
fn unary_minus_chains_are_read_as_repeated_negation() {
    // The reference evaluator reads "--3" as negation applied twice.
    assert_eq!(evalexpr::eval_int("--3"), Ok(3));
    assert_eq!(
        Ok(()),
        validate(vec![
            Symbol::Minus,
            Symbol::Minus,
            Symbol::Three,
            Symbol::Equal,
            Symbol::Three,
        ])
    );
}

#[test]
fn minus_after_minus_subtracts_a_negative() {
    // The reference evaluator reads "3--4" as 3 - (-4).
    assert_eq!(evalexpr::eval_int("3--4"), Ok(7));
    assert_eq!(
        Ok(()),
        validate(vec![
            Symbol::Three,
            Symbol::Minus,
            Symbol::Minus,
            Symbol::FourVar1,
            Symbol::Equal,
            Symbol::Seven,
        ])
    );
}

#[test]
fn unary_plus_is_not_an_expression() {
    // The reference evaluator has no prefix plus: "+3" does not evaluate.
    assert!(evalexpr::eval_int("+3").is_err());
    assert_eq!(
        Err(()),
        validate(vec![
            Symbol::Plus,
            Symbol::Three,
            Symbol::Equal,
            Symbol::Three,
        ])
    );
}

#[test]
fn trailing_operator_is_not_an_expression() {
    assert!(evalexpr::eval_int("3-").is_err());
    assert_eq!(
        Err(()),
        validate(vec![Symbol::Three, Symbol::Equal, Symbol::Three, Symbol::Minus])
    );
}

#[test]
fn multi_digit_numbers_are_read_in_decimal() {
    assert_eq!(evalexpr::eval_int("35-26"), Ok(9));
    assert_eq!(
        Ok(()),
        validate(vec![
            Symbol::Three,
            Symbol::Five,
            Symbol::Minus,
            Symbol::Two,
            Symbol::Six,
            Symbol::Equal,
            Symbol::Nine,
        ])
    );
}

#[test]
fn empty_equation_is_rejected() {
    assert_eq!(Err(()), validate(vec![]));
}

#[test]
fn lone_equal_sign_is_rejected() {
    assert_eq!(Err(()), validate(vec![Symbol::Equal]));
}
