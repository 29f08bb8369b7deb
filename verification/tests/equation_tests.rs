use matchstick::equation::Equation;
use matchstick::equation::EquationPattern;
use matchstick::symbol::Symbol;
use matchstick::symbol::SymbolFilter;
use matchstick::transition::Transition;
use matchstick::transition::TransitionSequence;

#[test]
fn apply_a_transition_sequence() {
    let transition_sequence = TransitionSequence {
        transitions: vec![
            Transition { remove: 0, add: 0 },
            Transition { remove: 1, add: 0 },
            Transition { remove: 0, add: 1 },
            Transition { remove: 0, add: 0 },
            Transition { remove: 0, add: 0 },
        ],
    };
    let equation = Equation::new_from_symbols(vec![
        Symbol::Seven,
        Symbol::Plus,
        Symbol::OneVar1,
        Symbol::Equal,
        Symbol::Zero,
    ]);

    let expected_equation = Equation::new_from_symbols(vec![
        Symbol::Seven,
        Symbol::Minus,
        Symbol::Seven,
        Symbol::Equal,
        Symbol::Zero,
    ]);

    let resulting_equations = equation
        .apply_transition_sequence(transition_sequence)
        .unwrap();
    if resulting_equations.len() != 1 {
        panic!("Should only result in one transitioned equation.")
    }

    assert_eq!(expected_equation, resulting_equations[0])
}

#[test]
fn valid_equation_result_first() {
    let equation = Equation::new_from_symbols(vec![
        Symbol::Five,
        Symbol::Equal,
        Symbol::Three,
        Symbol::Plus,
        Symbol::Two,
    ]);
    assert_eq!(Ok(()), equation.mathematically_validate())
}

#[test]
fn valid_equation_result_second() {
    let equation = Equation::new_from_symbols(vec![
        Symbol::Five,
        Symbol::Minus,
        Symbol::Three,
        Symbol::Equal,
        Symbol::Two,
    ]);
    assert_eq!(Ok(()), equation.mathematically_validate())
}

#[test]
fn valid_equation_result_negative() {
    let equation = Equation::new_from_symbols(vec![
        Symbol::Five,
        Symbol::Minus,
        Symbol::EightVar1,
        Symbol::Equal,
        Symbol::Minus,
        Symbol::Three,
    ]);
    assert_eq!(Ok(()), equation.mathematically_validate())
}

#[test]
fn invalid_equation() {
    let equation = Equation::new_from_symbols(vec![
        Symbol::Five,
        Symbol::Plus,
        Symbol::EightVar1,
        Symbol::Equal,
        Symbol::Two,
    ]);
    assert_eq!(Err(()), equation.mathematically_validate())
}

#[test]
fn no_equal_sign() {
    let equation = Equation::new_from_symbols(vec![
        Symbol::Three,
        Symbol::Minus,
        Symbol::EightVar1,
        Symbol::Plus,
        Symbol::Seven,
    ]);
    assert_eq!(Err(()), equation.mathematically_validate())
}

#[test]
fn two_consecutive_equal_signs() {
    let equation = Equation::new_from_symbols(vec![
        Symbol::Three,
        Symbol::Plus,
        Symbol::EightVar1,
        Symbol::Equal,
        Symbol::Equal,
        Symbol::Two,
    ]);
    assert_eq!(Err(()), equation.mathematically_validate())
}

#[test]
fn two_individual_equal_signs() {
    let equation = Equation::new_from_symbols(vec![
        Symbol::Two,
        Symbol::Equal,
        Symbol::Two,
        Symbol::Equal,
        Symbol::Two,
    ]);
    assert_eq!(Ok(()), equation.mathematically_validate())
}

#[test]
fn equation_build_specific_equations() {
    let equation_pattern = EquationPattern::new_from_symbol_filters(vec![
        SymbolFilter::IsNumber,
        SymbolFilter::IsOperator,
    ]);

    let expected_specific_equations = vec![
        Equation::new_from_symbols(vec![Symbol::OneVar1, Symbol::Minus]),
        Equation::new_from_symbols(vec![Symbol::OneVar1, Symbol::Plus]),
        Equation::new_from_symbols(vec![Symbol::OneVar1, Symbol::Equal]),
        Equation::new_from_symbols(vec![Symbol::OneVar2, Symbol::Minus]),
        Equation::new_from_symbols(vec![Symbol::OneVar2, Symbol::Plus]),
        Equation::new_from_symbols(vec![Symbol::OneVar2, Symbol::Equal]),
        Equation::new_from_symbols(vec![Symbol::Two, Symbol::Minus]),
        Equation::new_from_symbols(vec![Symbol::Two, Symbol::Plus]),
        Equation::new_from_symbols(vec![Symbol::Two, Symbol::Equal]),
        Equation::new_from_symbols(vec![Symbol::Three, Symbol::Minus]),
        Equation::new_from_symbols(vec![Symbol::Three, Symbol::Plus]),
        Equation::new_from_symbols(vec![Symbol::Three, Symbol::Equal]),
        Equation::new_from_symbols(vec![Symbol::FourVar1, Symbol::Minus]),
        Equation::new_from_symbols(vec![Symbol::FourVar1, Symbol::Plus]),
        Equation::new_from_symbols(vec![Symbol::FourVar1, Symbol::Equal]),
        Equation::new_from_symbols(vec![Symbol::FourVar2, Symbol::Minus]),
        Equation::new_from_symbols(vec![Symbol::FourVar2, Symbol::Plus]),
        Equation::new_from_symbols(vec![Symbol::FourVar2, Symbol::Equal]),
        Equation::new_from_symbols(vec![Symbol::Five, Symbol::Minus]),
        Equation::new_from_symbols(vec![Symbol::Five, Symbol::Plus]),
        Equation::new_from_symbols(vec![Symbol::Five, Symbol::Equal]),
        Equation::new_from_symbols(vec![Symbol::Six, Symbol::Minus]),
        Equation::new_from_symbols(vec![Symbol::Six, Symbol::Plus]),
        Equation::new_from_symbols(vec![Symbol::Six, Symbol::Equal]),
        Equation::new_from_symbols(vec![Symbol::Seven, Symbol::Minus]),
        Equation::new_from_symbols(vec![Symbol::Seven, Symbol::Plus]),
        Equation::new_from_symbols(vec![Symbol::Seven, Symbol::Equal]),
        Equation::new_from_symbols(vec![Symbol::EightVar1, Symbol::Minus]),
        Equation::new_from_symbols(vec![Symbol::EightVar1, Symbol::Plus]),
        Equation::new_from_symbols(vec![Symbol::EightVar1, Symbol::Equal]),
        Equation::new_from_symbols(vec![Symbol::EightVar2, Symbol::Minus]),
        Equation::new_from_symbols(vec![Symbol::EightVar2, Symbol::Plus]),
        Equation::new_from_symbols(vec![Symbol::EightVar2, Symbol::Equal]),
        Equation::new_from_symbols(vec![Symbol::Nine, Symbol::Minus]),
        Equation::new_from_symbols(vec![Symbol::Nine, Symbol::Plus]),
        Equation::new_from_symbols(vec![Symbol::Nine, Symbol::Equal]),
        Equation::new_from_symbols(vec![Symbol::Zero, Symbol::Minus]),
        Equation::new_from_symbols(vec![Symbol::Zero, Symbol::Plus]),
        Equation::new_from_symbols(vec![Symbol::Zero, Symbol::Equal]),
    ];

    assert_eq!(
        expected_specific_equations,
        equation_pattern.derive_concrete_equations()
    )
}

#[test]
fn equation_pattern_build_specific_equations() {
    let equation_pattern = EquationPattern::new_from_symbol_filters(vec![
        SymbolFilter::IsNumber,
        SymbolFilter::IsOperator,
    ]);

    let expected_specific_equations = vec![
        Equation::new_from_symbols(vec![Symbol::OneVar1, Symbol::Minus]),
        Equation::new_from_symbols(vec![Symbol::OneVar1, Symbol::Plus]),
        Equation::new_from_symbols(vec![Symbol::OneVar1, Symbol::Equal]),
        Equation::new_from_symbols(vec![Symbol::OneVar2, Symbol::Minus]),
        Equation::new_from_symbols(vec![Symbol::OneVar2, Symbol::Plus]),
        Equation::new_from_symbols(vec![Symbol::OneVar2, Symbol::Equal]),
        Equation::new_from_symbols(vec![Symbol::Two, Symbol::Minus]),
        Equation::new_from_symbols(vec![Symbol::Two, Symbol::Plus]),
        Equation::new_from_symbols(vec![Symbol::Two, Symbol::Equal]),
        Equation::new_from_symbols(vec![Symbol::Three, Symbol::Minus]),
        Equation::new_from_symbols(vec![Symbol::Three, Symbol::Plus]),
        Equation::new_from_symbols(vec![Symbol::Three, Symbol::Equal]),
        Equation::new_from_symbols(vec![Symbol::FourVar1, Symbol::Minus]),
        Equation::new_from_symbols(vec![Symbol::FourVar1, Symbol::Plus]),
        Equation::new_from_symbols(vec![Symbol::FourVar1, Symbol::Equal]),
        Equation::new_from_symbols(vec![Symbol::FourVar2, Symbol::Minus]),
        Equation::new_from_symbols(vec![Symbol::FourVar2, Symbol::Plus]),
        Equation::new_from_symbols(vec![Symbol::FourVar2, Symbol::Equal]),
        Equation::new_from_symbols(vec![Symbol::Five, Symbol::Minus]),
        Equation::new_from_symbols(vec![Symbol::Five, Symbol::Plus]),
        Equation::new_from_symbols(vec![Symbol::Five, Symbol::Equal]),
        Equation::new_from_symbols(vec![Symbol::Six, Symbol::Minus]),
        Equation::new_from_symbols(vec![Symbol::Six, Symbol::Plus]),
        Equation::new_from_symbols(vec![Symbol::Six, Symbol::Equal]),
        Equation::new_from_symbols(vec![Symbol::Seven, Symbol::Minus]),
        Equation::new_from_symbols(vec![Symbol::Seven, Symbol::Plus]),
        Equation::new_from_symbols(vec![Symbol::Seven, Symbol::Equal]),
        Equation::new_from_symbols(vec![Symbol::EightVar1, Symbol::Minus]),
        Equation::new_from_symbols(vec![Symbol::EightVar1, Symbol::Plus]),
        Equation::new_from_symbols(vec![Symbol::EightVar1, Symbol::Equal]),
        Equation::new_from_symbols(vec![Symbol::EightVar2, Symbol::Minus]),
        Equation::new_from_symbols(vec![Symbol::EightVar2, Symbol::Plus]),
        Equation::new_from_symbols(vec![Symbol::EightVar2, Symbol::Equal]),
        Equation::new_from_symbols(vec![Symbol::Nine, Symbol::Minus]),
        Equation::new_from_symbols(vec![Symbol::Nine, Symbol::Plus]),
        Equation::new_from_symbols(vec![Symbol::Nine, Symbol::Equal]),
        Equation::new_from_symbols(vec![Symbol::Zero, Symbol::Minus]),
        Equation::new_from_symbols(vec![Symbol::Zero, Symbol::Plus]),
        Equation::new_from_symbols(vec![Symbol::Zero, Symbol::Equal]),
    ];

    assert_eq!(
        expected_specific_equations,
        equation_pattern.derive_concrete_equations()
    )
}
