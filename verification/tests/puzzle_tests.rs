use matchstick::equation::Equation;
use matchstick::equation::EquationPattern;
use matchstick::puzzle::Puzzle;
use matchstick::puzzle::PuzzleGenerator;
use matchstick::puzzle::Riddle;
use matchstick::puzzle::SolutionWrapper;
use matchstick::symbol::Symbol;
use matchstick::symbol::SymbolFilter;

#[test]
fn set_new_riddle() {
    let riddle_equation = Equation::new_from_symbols(vec![
        Symbol::FourVar2,
        Symbol::Two,
        Symbol::Plus,
        Symbol::Nine,
        Symbol::Equal,
        Symbol::OneVar1,
    ]);

    let mut puzzle = Puzzle::new_from_riddle(Riddle::new(riddle_equation.clone(), 2));

    let expected_puzzle = Puzzle::new_from_riddle(Riddle::new(riddle_equation.clone(), 4));

    puzzle.set_riddle(Riddle::new(riddle_equation, 4));
    assert_eq!(expected_puzzle, puzzle);
}

#[test]
fn test_leading_minus() {
    let riddle_equation = Equation::new_from_symbols(vec![
        Symbol::FourVar2,
        Symbol::Two,
        Symbol::Plus,
        Symbol::Nine,
        Symbol::Equal,
        Symbol::OneVar1,
    ]);

    let mut puzzle = Puzzle::new_from_riddle(Riddle::new(riddle_equation, 2));

    let expected_solution =
        SolutionWrapper::new_programmatically_set_solution(vec![Equation::new_from_symbols(
            vec![
                Symbol::Minus,
                Symbol::EightVar1,
                Symbol::Plus,
                Symbol::Nine,
                Symbol::Equal,
                Symbol::OneVar1,
            ],
        )]);

    // Only finds one solution equation
    assert_eq!(1, puzzle.search_and_set_solution());
    assert_eq!(&expected_solution, puzzle.get_wrapped_solution());
}

#[test]
fn generate_puzzle_with_no_matchstick_movement() {
    let riddle_pattern = EquationPattern::new_from_symbol_filters(vec![
        SymbolFilter::IsNumber,
        SymbolFilter::List(vec![Symbol::Equal]),
        SymbolFilter::List(vec![Symbol::Three]),
    ]);

    let puzzle_generator = PuzzleGenerator::new(riddle_pattern, 0);

    let expected_riddle = Riddle::new(
        Equation::new_from_symbols(vec![Symbol::Three, Symbol::Equal, Symbol::Three]),
        0,
    );
    let expected_solution_equations = vec![Equation::new_from_symbols(vec![
        Symbol::Three,
        Symbol::Equal,
        Symbol::Three,
    ])];

    let puzzles = puzzle_generator.derive_puzzles_with_n_solutions(1);
    assert_eq!(1, puzzles.len());
    assert_eq!(&expected_riddle, puzzles[0].get_riddle());
    match puzzles[0].get_wrapped_solution() {
        SolutionWrapper::ProgrammaticallySet(solution) => {
            assert_eq!(&expected_solution_equations, solution.get_solution_equations());
        }
        other => panic!("expected a solution found by the search, got {:?}", other),
    }
}

#[test]
fn no_matching_puzzle() {
    let riddle_pattern = EquationPattern::new_from_symbol_filters(vec![
        SymbolFilter::List(vec![Symbol::Nine]),
        SymbolFilter::List(vec![Symbol::Equal]),
        SymbolFilter::List(vec![Symbol::Three]),
    ]);

    let puzzle_generator = PuzzleGenerator::new(riddle_pattern, 1);

    assert_eq!(
        puzzle_generator.derive_puzzles_with_n_solutions(1),
        Vec::new()
    );
}

#[test]
fn change_number_matchstick_movements() {
    let equation_pattern = EquationPattern::new_from_symbol_filters(vec![]);
    let mut puzzle_generator = PuzzleGenerator::new(equation_pattern, 3);

    assert_eq!(3, *puzzle_generator.get_number_matchstick_movements());

    puzzle_generator.set_number_matchstick_movements(1);
    assert_eq!(1, *puzzle_generator.get_number_matchstick_movements());
}

#[test]
fn change_riddle_equation_pattern() {
    let equation_pattern = EquationPattern::new_from_symbol_filters(vec![]);
    let mut puzzle_generator = PuzzleGenerator::new(equation_pattern.clone(), 3);

    assert_eq!(
        equation_pattern,
        *puzzle_generator.get_riddle_equation_pattern()
    );

    let changed_equation_pattern =
        EquationPattern::new_from_symbol_filters(vec![SymbolFilter::IsAny]);

    puzzle_generator.set_riddle_equation_pattern(changed_equation_pattern.clone());
    assert_eq!(
        changed_equation_pattern,
        *puzzle_generator.get_riddle_equation_pattern()
    );
}

#[test]
fn solution_wrapper_states() {
    let not_yet = SolutionWrapper::NotYetSet;
    assert!(not_yet.get_inner_reference().is_err());

    let manual = SolutionWrapper::new_manually_set_solution(Vec::new());
    assert!(matches!(manual, SolutionWrapper::ManuallySet(_)));
    assert!(manual.get_inner_reference().is_ok());
}

#[test]
fn manually_set_solution_overwrites_any_state() {
    let riddle = Riddle::new(
        Equation::new_from_symbols(vec![Symbol::Two, Symbol::Plus, Symbol::Five]),
        0,
    );
    let mut puzzle = Puzzle::new_from_riddle(riddle);
    assert_eq!(&SolutionWrapper::NotYetSet, puzzle.get_wrapped_solution());

    let arbitrary = SolutionWrapper::new_manually_set_solution(vec![
        Equation::new_from_symbols(vec![Symbol::Three]),
    ]);
    puzzle.manually_set_solution(arbitrary);
    assert!(matches!(
        puzzle.get_wrapped_solution(),
        SolutionWrapper::ManuallySet(_)
    ));
}
