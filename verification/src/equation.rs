//! Equations as ordered symbol sequences: applying movement plans, expanding
//! abstract patterns, and validating arithmetic truth.

use vstd::prelude::*;

use crate::product::multi_product;
use crate::product::pools_count;
use crate::product::product_model;
use crate::product::lemma_product_model_len;
use crate::product::lemma_product_of_singletons;
use crate::symbol::Symbol;
use crate::symbol::SymbolFilter;
use crate::symbol::copy_symbols;
use crate::symbol::corresponding_model;
use crate::symbol::lemma_zero_edit_reaches_self;
use crate::symbol::reachable_model;
use crate::transition::Transition;
use crate::transition::TransitionSequence;
use crate::transition::copy_transitions;
use crate::transition::lemma_move_n_model_shape;
use crate::transition::move_n_model;
use crate::transition::plans_of;
use crate::transition::zero_plan;
use crate::validation::equation_valid;
use crate::validation::validate_text;

verus! {

/// The plain text of a symbol sequence, one character per symbol.
pub open spec fn spec_text(syms: Seq<Symbol>) -> Seq<char> {
    syms.map_values(|s: Symbol| s.spec_char())
}

/// An equation is arithmetically true when its plain text is.
pub open spec fn symbols_valid(syms: Seq<Symbol>) -> bool {
    equation_valid(spec_text(syms))
}

/// The per-position candidate symbols that `plan` allows from `syms`.
pub open spec fn candidate_pools(syms: Seq<Symbol>, plan: Seq<Transition>) -> Seq<Seq<Symbol>> {
    Seq::new(syms.len(), |i: int| reachable_model(syms[i], plan[i]))
}

/// Every equation that one movement plan turns `syms` into.
pub open spec fn apply_plan_model(syms: Seq<Symbol>, plan: Seq<Transition>) -> Seq<Seq<Symbol>> {
    product_model(candidate_pools(syms, plan))
}

/// Every equation reachable from `syms` by `movements` relocations, plan by
/// plan in enumeration order; duplicates are kept.
pub open spec fn search_model(syms: Seq<Symbol>, movements: nat) -> Seq<Seq<Symbol>> {
    move_n_model(movements, seq![zero_plan(syms.len())]).map_values(
        |p: Seq<Transition>| apply_plan_model(syms, p),
    ).flatten()
}

/// The symbol sequences of `cands` that the predicate keeps, in order.
pub open spec fn filter_seqs(
    cands: Seq<Seq<Symbol>>,
    pred: spec_fn(Seq<Symbol>) -> bool,
) -> Seq<Seq<Symbol>>
    decreases cands.len(),
{
    if cands.len() == 0 {
        Seq::empty()
    } else {
        filter_seqs(cands.drop_last(), pred) + (if pred(cands.last()) {
            seq![cands.last()]
        } else {
            Seq::<Seq<Symbol>>::empty()
        })
    }
}

/// The solutions of a riddle: the reachable equations that are true.
pub open spec fn solutions_model(syms: Seq<Symbol>, movements: nat) -> Seq<Seq<Symbol>> {
    filter_seqs(search_model(syms, movements), |c: Seq<Symbol>| symbols_valid(c))
}

/// The symbol sequences held by a list of equations.
pub open spec fn equations_of(v: Seq<Equation>) -> Seq<Seq<Symbol>> {
    v.map_values(|e: Equation| e@)
}

/// `syms` fits `filters` on every shared position; positions past the
/// shorter of the two are not checked.
pub open spec fn fulfills_model(syms: Seq<Symbol>, filters: Seq<SymbolFilter>) -> bool {
    forall|i: int|
        0 <= i < syms.len() && i < filters.len() ==> corresponding_model(
            #[trigger] filters[i],
        ).contains(syms[i])
}

/// The concrete equations an abstract pattern stands for, in product order.
pub open spec fn derive_model(filters: Seq<SymbolFilter>) -> Seq<Seq<Symbol>> {
    product_model(Seq::new(filters.len(), |i: int| corresponding_model(filters[i])))
}

/// An ordered sequence of symbols standing for a mathematical equation; it
/// need not be arithmetically true.
#[derive(Debug, PartialEq)]
pub struct Equation {
    symbols: Vec<Symbol>,
}

impl Clone for Equation {
    /// An equation with the same symbols.
    fn clone(&self) -> (r: Self)
        ensures
            r@ == self@,
    {
        Equation { symbols: copy_symbols(&self.symbols) }
    }
}

impl View for Equation {
    type V = Seq<Symbol>;

    closed spec fn view(&self) -> Seq<Symbol> {
        self.symbols@
    }
}

/// Whether `haystack` holds `needle`.
fn contains_symbol(haystack: &Vec<Symbol>, needle: Symbol) -> (r: bool)
    ensures
        r == haystack@.contains(needle),
{
    let mut i: usize = 0;
    while i < haystack.len()
        invariant
            i <= haystack.len(),
            forall|j: int| 0 <= j < i ==> haystack@[j] != needle,
        decreases haystack.len() - i,
    {
        if haystack[i] == needle {
            return true;
        }
        i = i + 1;
    }
    false
}

impl Equation {
    /// An equation from its symbols, one per glyph position.
    pub fn new_from_symbols(symbols: Vec<Symbol>) -> (r: Self)
        ensures
            r@ == symbols@,
    {
        Equation { symbols }
    }

    /// The plain text of this equation, one character per symbol.
    pub fn to_plain_text(&self) -> (r: String)
        ensures
            r@ == spec_text(self@),
    {
        let mut string_equation = String::new();
        let mut i: usize = 0;
        while i < self.symbols.len()
            invariant
                i <= self@.len(),
                string_equation@ == spec_text(self@.take(i as int)),
            decreases self@.len() - i,
        {
            string_equation.append(self.symbols[i].to_str());
            proof {
                assert(spec_text(self@.take(i + 1 as int)) =~= spec_text(
                    self@.take(i as int),
                ).push(self@[i as int].spec_char()));
            }
            i = i + 1;
        }
        proof {
            assert(self@.take(self@.len() as int) =~= self@);
        }
        string_equation
    }

    /// The characters of this equation's plain text.
    fn text_chars(&self) -> (r: Vec<char>)
        ensures
            r@ == spec_text(self@),
    {
        let mut chars: Vec<char> = Vec::new();
        let mut i: usize = 0;
        while i < self.symbols.len()
            invariant
                i <= self@.len(),
                chars@ == spec_text(self@.take(i as int)),
            decreases self@.len() - i,
        {
            chars.push(self.symbols[i].to_char());
            proof {
                assert(spec_text(self@.take(i + 1 as int)) =~= spec_text(
                    self@.take(i as int),
                ).push(self@[i as int].spec_char()));
            }
            i = i + 1;
        }
        proof {
            assert(self@.take(self@.len() as int) =~= self@);
        }
        chars
    }

    /// Whether this equation is an arithmetically true chain: two or more
    /// `=`-separated pieces, each evaluating, all to the same integer.
    pub fn mathematically_validate(&self) -> (r: Result<(), ()>)
        ensures
            r is Ok <==> symbols_valid(self@),
    {
        let chars = self.text_chars();
        if validate_text(&chars) {
            Ok(())
        } else {
            Err(())
        }
    }

    /// Every equation that the plan turns this one into; the plan must cover
    /// exactly this equation's positions.
    pub fn apply_transition_sequence(&self, transition_sequence: TransitionSequence) -> (r: Result<
        Vec<Equation>,
        (),
    >)
        ensures
            r is Ok <==> self@.len() == transition_sequence@.len(),
            match r {
                Ok(equations) => equations_of(equations@) == apply_plan_model(
                    self@,
                    transition_sequence@,
                ),
                Err(_) => true,
            },
    {
        if self.symbols.len() != transition_sequence.get_number_of_transitions() {
            return Err(());
        }
        let mut pools: Vec<Vec<Symbol>> = Vec::new();
        let mut i: usize = 0;
        while i < self.symbols.len()
            invariant
                i <= self@.len(),
                self@.len() == transition_sequence@.len(),
                pools@.map_values(|p: Vec<Symbol>| p@) == candidate_pools(
                    self@,
                    transition_sequence@,
                ).take(i as int),
            decreases self@.len() - i,
        {
            let reachable = self.symbols[i].apply_transition(transition_sequence.transitions[i]);
            pools.push(reachable);
            proof {
                assert(candidate_pools(self@, transition_sequence@).take(i + 1 as int)
                    =~= candidate_pools(self@, transition_sequence@).take(i as int).push(
                    reachable_model(self@[i as int], transition_sequence@[i as int]),
                ));
                assert(pools@.map_values(|p: Vec<Symbol>| p@) =~= candidate_pools(
                    self@,
                    transition_sequence@,
                ).take(i + 1 as int));
            }
            i = i + 1;
        }
        proof {
            assert(candidate_pools(self@, transition_sequence@).take(self@.len() as int)
                =~= candidate_pools(self@, transition_sequence@));
        }
        let combinations = multi_product(pools);
        let mut equations: Vec<Equation> = Vec::new();
        let mut k: usize = 0;
        while k < combinations.len()
            invariant
                k <= combinations@.len(),
                combinations@.map_values(|v: Vec<Symbol>| v@) == apply_plan_model(
                    self@,
                    transition_sequence@,
                ),
                equations_of(equations@) == combinations@.map_values(|v: Vec<Symbol>| v@).take(
                    k as int,
                ),
            decreases combinations@.len() - k,
        {
            let symbols = copy_symbols(&combinations[k]);
            let fresh = Equation { symbols };
            proof {
                assert(fresh@ == combinations@[k as int]@);
                assert(equations_of(equations@).len() == k as int);
                assert(equations@.len() == k as int);
            }
            equations.push(fresh);
            proof {
                assert(equations@[k as int] == fresh);
                assert(equations_of(equations@) =~= combinations@.map_values(
                    |v: Vec<Symbol>| v@,
                ).take(k + 1 as int));
            }
            k = k + 1;
        }
        proof {
            assert(combinations@.map_values(|v: Vec<Symbol>| v@).take(combinations@.len() as int)
                =~= combinations@.map_values(|v: Vec<Symbol>| v@));
        }
        Ok(equations)
    }

    /// Every equation that the given number of matchstick relocations can
    /// turn this one into, in plan enumeration order; the same equation may
    /// appear repeatedly.
    pub fn move_n_matchsticks(&self, number_matchsticks: usize) -> (r: Vec<Equation>)
        ensures
            equations_of(r@) == search_model(self@, number_matchsticks as nat),
    {
        broadcast use Seq::lemma_flatten_push;

        let number_symbols = self.symbols.len();
        let all_transition_sequences = TransitionSequence::move_n(
            number_matchsticks,
            number_symbols,
        );
        let ghost plans = move_n_model(
            number_matchsticks as nat,
            seq![zero_plan(number_symbols as nat)],
        );
        proof {
            lemma_move_n_model_shape(
                number_matchsticks as nat,
                seq![zero_plan(number_symbols as nat)],
                number_symbols as nat,
                0,
            );
        }
        let ghost expander = |p: Seq<Transition>| apply_plan_model(self@, p);
        let mut syntactically_correct_equations: Vec<Equation> = Vec::new();
        let mut i: usize = 0;
        while i < all_transition_sequences.len()
            invariant
                expander == (|p: Seq<Transition>| apply_plan_model(self@, p)),
                plans_of(all_transition_sequences@) == plans,
                plans == move_n_model(
                    number_matchsticks as nat,
                    seq![zero_plan(number_symbols as nat)],
                ),
                number_symbols == self@.len(),
                forall|q: int|
                    0 <= q < plans.len() ==> (#[trigger] plans[q]).len() == number_symbols,
                i <= all_transition_sequences@.len(),
                equations_of(syntactically_correct_equations@) == plans.take(i as int).map_values(
                    expander,
                ).flatten(),
            decreases all_transition_sequences@.len() - i,
        {
            let plan = TransitionSequence {
                transitions: copy_transitions(&all_transition_sequences[i].transitions),
            };
            let ghost prev = syntactically_correct_equations@;
            match self.apply_transition_sequence(plan) {
                Ok(mut transitioned_equations) => {
                    let ghost fresh = transitioned_equations@;
                    syntactically_correct_equations.append(&mut transitioned_equations);
                    proof {
                        assert(equations_of(prev + fresh) =~= equations_of(prev) + equations_of(
                            fresh,
                        ));
                        assert(plans.take(i + 1 as int) =~= plans.take(i as int).push(
                            plans[i as int],
                        ));
                        assert(expander(plans[i as int]) == apply_plan_model(
                            self@,
                            plans[i as int],
                        ));
                        assert(plans.take(i + 1 as int).map_values(expander) =~= plans.take(
                            i as int,
                        ).map_values(expander).push(apply_plan_model(self@, plans[i as int])));
                        plans.take(i as int).map_values(expander).lemma_flatten_push(
                            apply_plan_model(self@, plans[i as int]),
                        );
                    }
                },
                Err(_) => {
                    proof {
                        assert(plans[i as int].len() == self@.len());
                        assert(false);
                    }
                },
            }
            i = i + 1;
        }
        proof {
            assert(plans.take(plans.len() as int) =~= plans);
        }
        syntactically_correct_equations
    }

    /// Whether this equation fits the pattern on every shared position;
    /// positions past the shorter of the two are not checked.
    pub fn fulfills_abstract_equation(&self, abstract_equation: &EquationPattern) -> (r: bool)
        ensures
            r == fulfills_model(self@, abstract_equation@),
    {
        let shared = if self.symbols.len() < abstract_equation.symbol_filters.len() {
            self.symbols.len()
        } else {
            abstract_equation.symbol_filters.len()
        };
        let mut i: usize = 0;
        while i < shared
            invariant
                shared <= self@.len(),
                shared <= abstract_equation@.len(),
                shared == self@.len() || shared == abstract_equation@.len(),
                i <= shared,
                forall|j: int|
                    0 <= j < i ==> corresponding_model(#[trigger] abstract_equation@[j]).contains(
                        self@[j],
                    ),
            decreases shared - i,
        {
            let allowed_options = abstract_equation.symbol_filters[i].get_corresponding_symbols();
            if !contains_symbol(&allowed_options, self.symbols[i]) {
                return false;
            }
            i = i + 1;
        }
        true
    }
}

/// An ordered sequence of symbol filters generally describing an equation.
#[derive(Clone, Debug, PartialEq)]
pub struct EquationPattern {
    symbol_filters: Vec<SymbolFilter>,
}

impl View for EquationPattern {
    type V = Seq<SymbolFilter>;

    closed spec fn view(&self) -> Seq<SymbolFilter> {
        self.symbol_filters@
    }
}

impl EquationPattern {
    /// A pattern from its per-position filters.
    pub fn new_from_symbol_filters(symbol_filters: Vec<SymbolFilter>) -> (r: Self)
        ensures
            r@ == symbol_filters@,
    {
        EquationPattern { symbol_filters }
    }

    /// Every concrete equation this pattern stands for, in product order;
    /// nothing is checked for arithmetic truth.
    pub fn derive_concrete_equations(&self) -> (r: Vec<Equation>)
        ensures
            equations_of(r@) == derive_model(self@),
    {
        let ghost pattern_pools = Seq::new(
            self@.len(),
            |i: int| corresponding_model(self@[i]),
        );
        let mut pools: Vec<Vec<Symbol>> = Vec::new();
        let mut i: usize = 0;
        while i < self.symbol_filters.len()
            invariant
                i <= self@.len(),
                pattern_pools == Seq::new(self@.len(), |k: int| corresponding_model(self@[k])),
                pools@.map_values(|p: Vec<Symbol>| p@) == pattern_pools.take(i as int),
            decreases self@.len() - i,
        {
            let symbols_for_position = self.symbol_filters[i].get_corresponding_symbols();
            pools.push(symbols_for_position);
            proof {
                assert(pattern_pools.take(i + 1 as int) =~= pattern_pools.take(i as int).push(
                    corresponding_model(self@[i as int]),
                ));
                assert(pools@.map_values(|p: Vec<Symbol>| p@) =~= pattern_pools.take(i + 1 as int));
            }
            i = i + 1;
        }
        proof {
            assert(pattern_pools.take(self@.len() as int) =~= pattern_pools);
        }
        let combinations = multi_product(pools);
        let mut equations: Vec<Equation> = Vec::new();
        let mut k: usize = 0;
        while k < combinations.len()
            invariant
                k <= combinations@.len(),
                combinations@.map_values(|v: Vec<Symbol>| v@) == derive_model(self@),
                equations_of(equations@) == combinations@.map_values(|v: Vec<Symbol>| v@).take(
                    k as int,
                ),
            decreases combinations@.len() - k,
        {
            let symbols = copy_symbols(&combinations[k]);
            let fresh = Equation { symbols };
            proof {
                assert(fresh@ == combinations@[k as int]@);
                assert(equations_of(equations@).len() == k as int);
                assert(equations@.len() == k as int);
            }
            equations.push(fresh);
            proof {
                assert(equations_of(equations@) =~= combinations@.map_values(
                    |v: Vec<Symbol>| v@,
                ).take(k + 1 as int));
            }
            k = k + 1;
        }
        proof {
            assert(combinations@.map_values(|v: Vec<Symbol>| v@).take(combinations@.len() as int)
                =~= combinations@.map_values(|v: Vec<Symbol>| v@));
        }
        equations
    }
}

/// Law: a movement budget of zero reproduces exactly the starting equation,
/// once, with nothing else.
pub proof fn lemma_zero_budget_reproduces(syms: Seq<Symbol>)
    ensures
        search_model(syms, 0) == seq![syms],
{
    broadcast use Seq::lemma_flatten_singleton;

    let plan = zero_plan(syms.len());
    assert(move_n_model(0, seq![plan]) == seq![plan]);
    assert forall|i: int| 0 <= i < candidate_pools(syms, plan).len() implies #[trigger] candidate_pools(
        syms,
        plan,
    )[i] == seq![syms[i]] by {
        lemma_zero_edit_reaches_self(syms[i]);
    };
    lemma_product_of_singletons(candidate_pools(syms, plan), syms);
    assert(seq![plan].map_values(|p: Seq<Transition>| apply_plan_model(syms, p)) =~= seq![
        apply_plan_model(syms, plan),
    ]);
    assert(search_model(syms, 0) == seq![syms]);
}

/// Law: a pattern expands into exactly the product of its per-position
/// choice counts.
pub proof fn lemma_derive_count(filters: Seq<SymbolFilter>)
    ensures
        derive_model(filters).len() == pools_count(
            Seq::new(filters.len(), |i: int| corresponding_model(filters[i])),
        ),
{
    lemma_product_model_len(Seq::new(filters.len(), |i: int| corresponding_model(filters[i])));
}

/// One drawing row of a whole symbol sequence.
pub open spec fn spec_row(syms: Seq<Symbol>, row: int) -> Seq<char>
    decreases syms.len(),
{
    if syms.len() == 0 {
        Seq::empty()
    } else {
        spec_row(syms.drop_last(), row) + crate::segment_display::spec_line(
            syms.last().seg_of(),
            row,
        )
    }
}

/// The five-line drawing of a whole symbol sequence, symbols side by side.
pub open spec fn spec_equation_draw(syms: Seq<Symbol>) -> Seq<char> {
    spec_row(syms, 1) + ("\n")@ + spec_row(syms, 2) + ("\n")@ + spec_row(syms, 3) + ("\n")@
        + spec_row(syms, 4) + ("\n")@ + spec_row(syms, 5)
}

/// Append one drawing row of all the symbols to the string.
fn append_row(s: &mut String, symbols: &Vec<Symbol>, row: usize)
    requires
        1 <= row <= 5,
    ensures
        final(s)@ == old(s)@ + spec_row(symbols@, row as int),
{
    let ghost base = s@;
    let mut i: usize = 0;
    proof {
        assert(spec_row(symbols@.take(0), row as int) =~= Seq::<char>::empty());
        assert(base + spec_row(symbols@.take(0), row as int) =~= base);
    }
    while i < symbols.len()
        invariant
            1 <= row <= 5,
            i <= symbols@.len(),
            s@ == base + spec_row(symbols@.take(i as int), row as int),
        decreases symbols@.len() - i,
    {
        let display = symbols[i].to_segment_display();
        let line = crate::segment_display::line_string(&display, row);
        s.append(line.as_str());
        proof {
            vstd::seq_lib::lemma_concat_associative(
                base,
                spec_row(symbols@.take(i as int), row as int),
                crate::segment_display::spec_line(symbols@[i as int].seg_of(), row as int),
            );
            assert(symbols@.take(i + 1 as int).drop_last() =~= symbols@.take(i as int));
            assert(symbols@.take(i + 1 as int).last() == symbols@[i as int]);
        }
        i = i + 1;
    }
    proof {
        assert(symbols@.take(symbols@.len() as int) =~= symbols@);
    }
}

impl Equation {
    /// The five-line matchstick drawing of this equation, its symbols side
    /// by side.
    pub fn draw(&self) -> (r: String)
        ensures
            r@ == spec_equation_draw(self@),
    {
        broadcast use Seq::add_empty_left;

        let mut drawing = String::new();
        append_row(&mut drawing, &self.symbols, 1);
        drawing.append("\n");
        append_row(&mut drawing, &self.symbols, 2);
        drawing.append("\n");
        append_row(&mut drawing, &self.symbols, 3);
        drawing.append("\n");
        append_row(&mut drawing, &self.symbols, 4);
        drawing.append("\n");
        append_row(&mut drawing, &self.symbols, 5);
        proof {
            assert(drawing@ == spec_equation_draw(self@));
        }
        drawing
    }
}

/// Law: measure the edit between two symbols and spend it as a plan on a
/// one-symbol equation: the target's equation is among the results.
pub proof fn lemma_single_position_round_trip(source: Symbol, target: Symbol, edit: Transition)
    requires
        edit.remove == crate::segment_display::removed_count(source.seg_of(), target.seg_of()),
        edit.add == crate::segment_display::added_count(source.seg_of(), target.seg_of()),
    ensures
        apply_plan_model(seq![source], seq![edit]).contains(seq![target]),
{
    crate::symbol::lemma_measured_edit_reaches_target(source, target, edit);
    let pool = reachable_model(source, edit);
    assert(candidate_pools(seq![source], seq![edit]) =~= seq![pool]);
    crate::product::lemma_product_single_pool(pool);
    let k = choose|k: int| 0 <= k < pool.len() && pool[k] == target;
    assert(pool.map_values(|x: Symbol| seq![x])[k] == seq![target]);
}

} // verus!
