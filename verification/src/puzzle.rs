//! Riddles, their solutions, and the generation of whole puzzle families
//! from abstract equation patterns.

use vstd::prelude::*;

use crate::equation::Equation;
use crate::equation::EquationPattern;
use crate::equation::derive_model;
use crate::equation::equations_of;
use crate::equation::filter_seqs;
use crate::equation::fulfills_model;
use crate::equation::solutions_model;
use crate::equation::symbols_valid;
use crate::symbol::Symbol;
use crate::symbol::SymbolFilter;

verus! {

/// A matchstick riddle: a starting equation and a movement budget.
#[derive(Debug, PartialEq)]
pub struct Riddle {
    riddle_equation: Equation,
    number_matchstick_movements: usize,
}

impl Riddle {
    /// The equation this riddle starts from.
    pub closed spec fn spec_equation(self) -> Seq<Symbol> {
        self.riddle_equation@
    }

    /// The movement budget of this riddle.
    pub closed spec fn spec_movements(self) -> nat {
        self.number_matchstick_movements as nat
    }

    /// A riddle asking to turn `equation` into a true equation with the
    /// given number of matchstick relocations.
    pub fn new(equation: Equation, number_matchstick_movements: usize) -> (r: Self)
        ensures
            r.spec_equation() == equation@,
            r.spec_movements() == number_matchstick_movements as nat,
    {
        Riddle { riddle_equation: equation, number_matchstick_movements }
    }

    /// Search every reachable equation and keep the arithmetically true
    /// ones, in search order, duplicates kept.
    pub fn solve(&self) -> (r: SolutionWrapper)
        ensures
            r matches SolutionWrapper::ProgrammaticallySet(solution) && solution@
                == solutions_model(self.spec_equation(), self.spec_movements()),
    {
        let transformed_equations = self.riddle_equation.move_n_matchsticks(
            self.number_matchstick_movements,
        );
        let ghost candidates = equations_of(transformed_equations@);
        let ghost pred = |c: Seq<Symbol>| symbols_valid(c);
        let mut solution_equations: Vec<Equation> = Vec::new();
        let mut i: usize = 0;
        while i < transformed_equations.len()
            invariant
                pred == (|c: Seq<Symbol>| symbols_valid(c)),
                candidates == equations_of(transformed_equations@),
                i <= transformed_equations@.len(),
                equations_of(solution_equations@) == filter_seqs(
                    candidates.take(i as int),
                    pred,
                ),
            decreases transformed_equations@.len() - i,
        {
            let keep = match transformed_equations[i].mathematically_validate() {
                Ok(_) => true,
                Err(_) => false,
            };
            proof {
                assert(candidates.take(i + 1 as int).drop_last() =~= candidates.take(i as int));
                assert(candidates.take(i + 1 as int).last() == candidates[i as int]);
                assert(candidates[i as int] == transformed_equations@[i as int]@);
            }
            if keep {
                let equation = transformed_equations[i].clone();
                proof {
                    assert(solution_equations@.len() == equations_of(solution_equations@).len());
                }
                solution_equations.push(equation);
                proof {
                    assert(equations_of(solution_equations@) =~= filter_seqs(
                        candidates.take(i as int),
                        pred,
                    ) + seq![candidates[i as int]]);
                }
            } else {
                proof {
                    assert(filter_seqs(candidates.take(i + 1 as int), pred) =~= filter_seqs(
                        candidates.take(i as int),
                        pred,
                    ));
                }
            }
            i = i + 1;
        }
        proof {
            assert(candidates.take(candidates.len() as int) =~= candidates);
        }
        SolutionWrapper::new_programmatically_set_solution(solution_equations)
    }
}

/// The equations that solve a riddle, in search order.
#[derive(Debug, PartialEq)]
pub struct Solution {
    solution_equations: Vec<Equation>,
}

impl View for Solution {
    type V = Seq<Seq<Symbol>>;

    closed spec fn view(&self) -> Seq<Seq<Symbol>> {
        equations_of(self.solution_equations@)
    }
}

impl Solution {
    /// The solution's equations.
    pub fn get_solution_equations(&self) -> (r: &Vec<Equation>)
        ensures
            equations_of(r@) == self@,
    {
        &self.solution_equations
    }
}

/// The solution state of a puzzle: not yet known, found by the search, or
/// assigned from outside.
#[derive(Debug, PartialEq)]
pub enum SolutionWrapper {
    NotYetSet,
    ProgrammaticallySet(Solution),
    ManuallySet(Solution),
}

impl SolutionWrapper {
    /// A solution assigned from outside; it is taken as given, whether or
    /// not it fits any riddle.
    pub fn new_manually_set_solution(solution_equations: Vec<Equation>) -> (r: Self)
        ensures
            r matches SolutionWrapper::ManuallySet(solution) && solution@ == equations_of(
                solution_equations@,
            ),
    {
        SolutionWrapper::ManuallySet(Solution { solution_equations })
    }

    /// A solution found by the search.
    pub fn new_programmatically_set_solution(solution_equations: Vec<Equation>) -> (r: Self)
        ensures
            r matches SolutionWrapper::ProgrammaticallySet(solution) && solution@ == equations_of(
                solution_equations@,
            ),
    {
        SolutionWrapper::ProgrammaticallySet(Solution { solution_equations })
    }

    /// The held solution, or an error while none has been set.
    pub fn get_inner_reference(&self) -> (r: Result<&Solution, ()>)
        ensures
            r is Ok <==> !(self is NotYetSet),
            self matches SolutionWrapper::ProgrammaticallySet(solution) ==> r matches Ok(inner)
                && *inner == solution,
            self matches SolutionWrapper::ManuallySet(solution) ==> r matches Ok(inner) && *inner
                == solution,
    {
        match self {
            SolutionWrapper::NotYetSet => Err(()),
            SolutionWrapper::ProgrammaticallySet(solution) => Ok(solution),
            SolutionWrapper::ManuallySet(solution) => Ok(solution),
        }
    }
}

/// A riddle together with its solution state.
#[derive(Debug, PartialEq)]
pub struct Puzzle {
    riddle: Riddle,
    wrapped_solution: SolutionWrapper,
}

impl Puzzle {
    /// The riddle of this puzzle.
    pub closed spec fn spec_riddle(self) -> Riddle {
        self.riddle
    }

    /// The solution state of this puzzle.
    pub closed spec fn spec_wrapped_solution(self) -> SolutionWrapper {
        self.wrapped_solution
    }

    /// A puzzle whose solution is not known yet.
    pub fn new_from_riddle(riddle: Riddle) -> (r: Self)
        ensures
            r.spec_riddle() == riddle,
            r.spec_wrapped_solution() == SolutionWrapper::NotYetSet,
    {
        Puzzle { riddle, wrapped_solution: SolutionWrapper::NotYetSet }
    }

    /// Search for the solution of this puzzle's riddle, store it, and
    /// return how many solution equations were found.
    pub fn search_and_set_solution(&mut self) -> (n: usize)
        ensures
            final(self).spec_riddle() == old(self).spec_riddle(),
            final(self).spec_wrapped_solution() matches SolutionWrapper::ProgrammaticallySet(
                solution,
            ) && solution@ == solutions_model(
                old(self).spec_riddle().spec_equation(),
                old(self).spec_riddle().spec_movements(),
            ),
            n == solutions_model(
                old(self).spec_riddle().spec_equation(),
                old(self).spec_riddle().spec_movements(),
            ).len(),
    {
        self.wrapped_solution = self.riddle.solve();
        match &self.wrapped_solution {
            SolutionWrapper::ProgrammaticallySet(solution) => {
                let equations = solution.get_solution_equations();
                proof {
                    assert(equations_of(equations@).len() == equations@.len());
                }
                equations.len()
            },
            _ => {
                proof {
                    assert(false);
                }
                0
            },
        }
    }

    /// Replace the solution state with the given, arbitrary value.
    pub fn manually_set_solution(&mut self, wrapped_solution: SolutionWrapper)
        ensures
            final(self).spec_riddle() == old(self).spec_riddle(),
            final(self).spec_wrapped_solution() == wrapped_solution,
    {
        self.wrapped_solution = wrapped_solution;
    }

    /// The riddle of this puzzle.
    pub fn get_riddle(&self) -> (r: &Riddle)
        ensures
            *r == self.spec_riddle(),
    {
        &self.riddle
    }

    /// The solution state of this puzzle.
    pub fn get_wrapped_solution(&self) -> (r: &SolutionWrapper)
        ensures
            *r == self.spec_wrapped_solution(),
    {
        &self.wrapped_solution
    }

    /// Replace the riddle; the solution state is kept as it is.
    pub fn set_riddle(&mut self, riddle: Riddle)
        ensures
            final(self).spec_riddle() == riddle,
            final(self).spec_wrapped_solution() == old(self).spec_wrapped_solution(),
    {
        self.riddle = riddle;
    }
}

/// A candidate riddle equation is kept when its search finds exactly
/// `wanted` solutions, all fitting the solution pattern where one is set.
pub open spec fn puzzle_kept(
    candidate: Seq<Symbol>,
    movements: nat,
    wanted: int,
    solution_pattern: Option<EquationPattern>,
) -> bool {
    let sols = solutions_model(candidate, movements);
    sols.len() == wanted && match solution_pattern {
        Option::Some(pattern) => forall|k: int|
            0 <= k < sols.len() ==> fulfills_model(#[trigger] sols[k], pattern@),
        Option::None => true,
    }
}

/// The candidate riddle equations of a pattern that are kept, in the
/// pattern's own expansion order.
pub open spec fn generator_kept(
    pattern: Seq<SymbolFilter>,
    movements: nat,
    wanted: int,
    solution_pattern: Option<EquationPattern>,
) -> Seq<Seq<Symbol>> {
    filter_seqs(
        derive_model(pattern),
        |c: Seq<Symbol>| puzzle_kept(c, movements, wanted, solution_pattern),
    )
}

/// One generated puzzle: its riddle holds `syms` and the budget, and its
/// stored solution is exactly the search's result for them.
pub open spec fn puzzle_matches(p: Puzzle, syms: Seq<Symbol>, movements: nat) -> bool {
    p.spec_riddle().spec_equation() == syms && p.spec_riddle().spec_movements() == movements && (
    p.spec_wrapped_solution() matches SolutionWrapper::ProgrammaticallySet(solution)
        && solution@ == solutions_model(syms, movements))
}

/// Searches for the concrete puzzles of an abstract riddle pattern whose
/// riddles have a wanted number of solutions.
pub struct PuzzleGenerator {
    riddle_equation_pattern: EquationPattern,
    number_matchstick_movements: usize,
    solution_equation_pattern: Option<EquationPattern>,
}

impl PuzzleGenerator {
    /// The pattern that every generated riddle equation fits.
    pub closed spec fn spec_riddle_pattern(self) -> Seq<SymbolFilter> {
        self.riddle_equation_pattern@
    }

    /// The movement budget of every generated riddle.
    pub closed spec fn spec_movements(self) -> nat {
        self.number_matchstick_movements as nat
    }

    /// The pattern that every solution equation must fit, where one is set.
    pub closed spec fn spec_solution_pattern(self) -> Option<EquationPattern> {
        self.solution_equation_pattern
    }

    /// A generator over the given riddle pattern and movement budget, with
    /// no solution pattern set.
    pub fn new(riddle_equation_pattern: EquationPattern, number_matchstick_movements: usize) -> (r:
        Self)
        ensures
            r.spec_riddle_pattern() == riddle_equation_pattern@,
            r.spec_movements() == number_matchstick_movements as nat,
            r.spec_solution_pattern() is None,
    {
        PuzzleGenerator {
            riddle_equation_pattern,
            number_matchstick_movements,
            solution_equation_pattern: None,
        }
    }

    /// Every puzzle whose riddle equation fits the riddle pattern and whose
    /// search finds exactly `number_solutions` solutions, all fitting the
    /// solution pattern where one is set; in pattern expansion order.
    pub fn derive_puzzles_with_n_solutions(&self, number_solutions: usize) -> (r: Vec<Puzzle>)
        ensures
            r@.len() == generator_kept(
                self.spec_riddle_pattern(),
                self.spec_movements(),
                number_solutions as int,
                self.spec_solution_pattern(),
            ).len(),
            forall|k: int|
                0 <= k < r@.len() ==> puzzle_matches(
                    #[trigger] r@[k],
                    generator_kept(
                        self.spec_riddle_pattern(),
                        self.spec_movements(),
                        number_solutions as int,
                        self.spec_solution_pattern(),
                    )[k],
                    self.spec_movements(),
                ),
    {
        let candidate_equations = self.riddle_equation_pattern.derive_concrete_equations();
        let ghost candidates = equations_of(candidate_equations@);
        let ghost pred = |c: Seq<Symbol>| puzzle_kept(
            c,
            self.spec_movements(),
            number_solutions as int,
            self.spec_solution_pattern(),
        );
        let mut puzzles: Vec<Puzzle> = Vec::new();
        let mut i: usize = 0;
        while i < candidate_equations.len()
            invariant
                pred == (|c: Seq<Symbol>| puzzle_kept(
                    c,
                    self.spec_movements(),
                    number_solutions as int,
                    self.spec_solution_pattern(),
                )),
                candidates == equations_of(candidate_equations@),
                candidates == derive_model(self.spec_riddle_pattern()),
                i <= candidate_equations@.len(),
                puzzles@.len() == filter_seqs(candidates.take(i as int), pred).len(),
                forall|k: int|
                    0 <= k < puzzles@.len() ==> puzzle_matches(
                        #[trigger] puzzles@[k],
                        filter_seqs(candidates.take(i as int), pred)[k],
                        self.spec_movements(),
                    ),
            decreases candidate_equations@.len() - i,
        {
            let ghost candidate = candidates[i as int];
            proof {
                assert(candidates.take(i + 1 as int).drop_last() =~= candidates.take(i as int));
                assert(candidates.take(i + 1 as int).last() == candidate);
                assert(candidate == candidate_equations@[i as int]@);
            }
            let riddle_equation = candidate_equations[i].clone();
            let mut puzzle = Puzzle::new_from_riddle(
                Riddle::new(riddle_equation, self.number_matchstick_movements),
            );
            let found = puzzle.search_and_set_solution();
            let keep: bool = if found != number_solutions {
                false
            } else {
                match &self.solution_equation_pattern {
                    Option::Some(solution_equation_pattern) => {
                        let solution_equations = match puzzle
                            .get_wrapped_solution()
                            .get_inner_reference() {
                            Ok(solution) => solution.get_solution_equations(),
                            Err(_) => {
                                proof {
                                    assert(false);
                                }
                                return puzzles;
                            },
                        };
                        let ghost sols = solutions_model(candidate, self.spec_movements());
                        let mut all_fit = true;
                        let mut j: usize = 0;
                        while j < solution_equations.len() && all_fit
                            invariant
                                sols == equations_of(solution_equations@),
                                solution_equation_pattern@
                                    == self.spec_solution_pattern()->Some_0@,
                                self.spec_solution_pattern() is Some,
                                j <= solution_equations@.len(),
                                all_fit ==> forall|q: int|
                                    0 <= q < j ==> fulfills_model(
                                        #[trigger] sols[q],
                                        solution_equation_pattern@,
                                    ),
                                !all_fit ==> exists|q: int|
                                    0 <= q < sols.len() && !fulfills_model(
                                        #[trigger] sols[q],
                                        solution_equation_pattern@,
                                    ),
                            decreases solution_equations@.len() - j,
                        {
                            if !solution_equations[j].fulfills_abstract_equation(
                                solution_equation_pattern,
                            ) {
                                all_fit = false;
                                proof {
                                    assert(sols[j as int] == solution_equations@[j as int]@);
                                    assert(!fulfills_model(
                                        sols[j as int],
                                        solution_equation_pattern@,
                                    ));
                                }
                            }
                            j = j + 1;
                        }
                        all_fit
                    },
                    Option::None => true,
                }
            };
            proof {
                assert(keep == pred(candidate));
            }
            if keep {
                puzzles.push(puzzle);
                proof {
                    assert(filter_seqs(candidates.take(i + 1 as int), pred) =~= filter_seqs(
                        candidates.take(i as int),
                        pred,
                    ) + seq![candidate]);
                }
            } else {
                proof {
                    assert(filter_seqs(candidates.take(i + 1 as int), pred) =~= filter_seqs(
                        candidates.take(i as int),
                        pred,
                    ));
                }
            }
            i = i + 1;
        }
        proof {
            assert(candidates.take(candidates.len() as int) =~= candidates);
        }
        puzzles
    }

    /// Replace the riddle pattern.
    pub fn set_riddle_equation_pattern(&mut self, riddle_equation_pattern: EquationPattern)
        ensures
            final(self).spec_riddle_pattern() == riddle_equation_pattern@,
            final(self).spec_movements() == old(self).spec_movements(),
            final(self).spec_solution_pattern() == old(self).spec_solution_pattern(),
    {
        self.riddle_equation_pattern = riddle_equation_pattern;
    }

    /// Replace the movement budget.
    pub fn set_number_matchstick_movements(&mut self, number_matchstick_movements: usize)
        ensures
            final(self).spec_riddle_pattern() == old(self).spec_riddle_pattern(),
            final(self).spec_movements() == number_matchstick_movements as nat,
            final(self).spec_solution_pattern() == old(self).spec_solution_pattern(),
    {
        self.number_matchstick_movements = number_matchstick_movements;
    }

    /// Require every solution equation of a generated puzzle to fit the
    /// given pattern.
    pub fn set_solution_equation_pattern(&mut self, solution_equation_pattern: EquationPattern)
        ensures
            final(self).spec_riddle_pattern() == old(self).spec_riddle_pattern(),
            final(self).spec_movements() == old(self).spec_movements(),
            final(self).spec_solution_pattern() matches Some(pattern) && pattern
                == solution_equation_pattern,
    {
        self.solution_equation_pattern = Some(solution_equation_pattern);
    }

    /// The riddle pattern.
    pub fn get_riddle_equation_pattern(&self) -> (r: &EquationPattern)
        ensures
            r@ == self.spec_riddle_pattern(),
    {
        &self.riddle_equation_pattern
    }

    /// The movement budget.
    pub fn get_number_matchstick_movements(&self) -> (r: &usize)
        ensures
            *r == self.spec_movements(),
    {
        &self.number_matchstick_movements
    }

    /// The solution pattern, where one has been set.
    pub fn get_solution_equation_pattern(&self) -> (r: &Option<EquationPattern>)
        ensures
            *r == self.spec_solution_pattern(),
    {
        &self.solution_equation_pattern
    }
}

} // verus!
