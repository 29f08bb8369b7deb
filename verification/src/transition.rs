//! Per-position segment movements and the enumeration of movement plans.

use vstd::prelude::*;

verus! {

/// How many segments are removed from and added to one position.
#[derive(Clone, Copy, Debug, PartialEq, Eq, Structural)]
pub struct Transition {
    pub remove: usize,
    pub add: usize,
}

/// The transition that removes and adds nothing.
pub open spec fn zero_transition() -> Transition {
    Transition { remove: 0, add: 0 }
}

/// A plan of `n` all-zero transitions.
pub open spec fn zero_plan(n: nat) -> Seq<Transition> {
    Seq::new(n, |i: int| zero_transition())
}

impl Transition {
    /// Record that one more segment leaves this position.
    pub fn remove_one(&mut self)
        requires
            old(self).remove < usize::MAX,
        ensures
            final(self).remove == old(self).remove + 1,
            final(self).add == old(self).add,
    {
        self.remove = self.remove + 1;
    }

    /// Record that one more segment arrives at this position.
    pub fn add_one(&mut self)
        requires
            old(self).add < usize::MAX,
        ensures
            final(self).add == old(self).add + 1,
            final(self).remove == old(self).remove,
    {
        self.add = self.add + 1;
    }
}

/// `t` with one more removal recorded.
pub open spec fn bump_remove(t: Transition) -> Transition {
    Transition { remove: (t.remove + 1) as usize, add: t.add }
}

/// `t` with one more addition recorded.
pub open spec fn bump_add(t: Transition) -> Transition {
    Transition { remove: t.remove, add: (t.add + 1) as usize }
}

/// One transition per position of an equation.
#[derive(Clone, Debug, PartialEq)]
pub struct TransitionSequence {
    pub transitions: Vec<Transition>,
}

impl View for TransitionSequence {
    type V = Seq<Transition>;

    open spec fn view(&self) -> Seq<Transition> {
        self.transitions@
    }
}

/// The plans held by a list of transition sequences.
pub open spec fn plans_of(v: Seq<TransitionSequence>) -> Seq<Seq<Transition>> {
    v.map_values(|t: TransitionSequence| t@)
}

/// Every count of `plan` is at most `bound`.
pub open spec fn plan_bounded(plan: Seq<Transition>, bound: int) -> bool {
    forall|i: int|
        0 <= i < plan.len() ==> (#[trigger] plan[i]).remove <= bound && plan[i].add <= bound
}

/// All plans that one relocation turns `plan` into: the relocation leaves from
/// position `k / n` and arrives at position `k % n`, ordered by source first.
pub open spec fn move_one_model(plan: Seq<Transition>) -> Seq<Seq<Transition>> {
    let n = plan.len() as int;
    Seq::new(
        (n * n) as nat,
        |k: int|
            {
                let source = k / n;
                let target = k % n;
                let removed = plan.update(source, bump_remove(plan[source]));
                removed.update(target, bump_add(removed[target]))
            },
    )
}

/// All plans that `movements` further relocations can turn the given plans into.
pub open spec fn move_n_model(movements: nat, plans: Seq<Seq<Transition>>) -> Seq<Seq<Transition>>
    decreases movements,
{
    if movements == 0 {
        plans
    } else {
        move_n_model(
            (movements - 1) as nat,
            plans.map_values(|p: Seq<Transition>| move_one_model(p)).flatten(),
        )
    }
}

/// A fresh vector holding the same transitions.
pub(crate) fn copy_transitions(v: &Vec<Transition>) -> (r: Vec<Transition>)
    ensures
        r@ == v@,
{
    let mut r: Vec<Transition> = Vec::new();
    let mut i: usize = 0;
    while i < v.len()
        invariant
            i <= v.len(),
            r@ == v@.take(i as int),
        decreases v.len() - i,
    {
        r.push(v[i]);
        proof {
            assert(v@.take(i + 1 as int) =~= v@.take(i as int).push(v@[i as int]));
        }
        i = i + 1;
    }
    proof {
        assert(v@.take(v@.len() as int) =~= v@);
    }
    r
}

/// Every plan one relocation away from a bounded plan keeps its length and
/// stays within the bound raised by one.
proof fn lemma_move_one_model_shape(plan: Seq<Transition>, bound: int)
    requires
        plan_bounded(plan, bound),
        0 <= bound,
        bound + 1 <= usize::MAX,
    ensures
        forall|k: int|
            0 <= k < move_one_model(plan).len() ==> (#[trigger] move_one_model(plan)[k]).len()
                == plan.len() && plan_bounded(move_one_model(plan)[k], bound + 1),
{
    let n = plan.len() as int;
    assert forall|k: int| 0 <= k < move_one_model(plan).len() implies (#[trigger] move_one_model(
        plan,
    )[k]).len() == plan.len() && plan_bounded(move_one_model(plan)[k], bound + 1) by {
        vstd::arithmetic::div_mod::lemma_mod_division_less_than_divisor(k, n);
        vstd::arithmetic::div_mod::lemma_div_pos_is_pos(k, n);
        vstd::arithmetic::div_mod::lemma_multiply_divide_lt(k, n, n);
        let source = k / n;
        let target = k % n;
        let removed = plan.update(source, bump_remove(plan[source]));
        let element = removed.update(target, bump_add(removed[target]));
        assert(move_one_model(plan)[k] == element);
        assert forall|i: int| 0 <= i < element.len() implies (#[trigger] element[i]).remove <= bound
            + 1 && element[i].add <= bound + 1 by {
            assert(plan[i].remove <= bound && plan[i].add <= bound);
        };
    };
}

/// All plans reached by `movements` relocations from plans of one length and
/// bound keep that length and stay within the bound raised by `movements`.
pub proof fn lemma_move_n_model_shape(
    movements: nat,
    plans: Seq<Seq<Transition>>,
    n: nat,
    bound: int,
)
    requires
        0 <= bound,
        bound + movements <= usize::MAX,
        forall|p: int|
            0 <= p < plans.len() ==> (#[trigger] plans[p]).len() == n && plan_bounded(
                plans[p],
                bound,
            ),
    ensures
        forall|q: int|
            0 <= q < move_n_model(movements, plans).len() ==> (#[trigger] move_n_model(
                movements,
                plans,
            )[q]).len() == n && plan_bounded(move_n_model(movements, plans)[q], bound + movements),
    decreases movements,
{
    broadcast use Seq::lemma_flatten_push, Seq::lemma_flatten_singleton;

    if movements > 0 {
        let stepped = plans.map_values(|p: Seq<Transition>| move_one_model(p)).flatten();
        assert forall|q: int| 0 <= q < stepped.len() implies (#[trigger] stepped[q]).len() == n
            && plan_bounded(stepped[q], bound + 1) by {
            let mapped = plans.map_values(|p: Seq<Transition>| move_one_model(p));
            lemma_flatten_index_origin(mapped, q);
            let origin = flatten_origin(mapped, q);
            lemma_move_one_model_shape(plans[origin.0], bound);
        };
        lemma_move_n_model_shape((movements - 1) as nat, stepped, n, bound + 1);
        assert(move_n_model(movements, plans) == move_n_model((movements - 1) as nat, stepped));
        assert forall|q: int| 0 <= q < move_n_model(movements, plans).len() implies (
        #[trigger] move_n_model(movements, plans)[q]).len() == n && plan_bounded(
            move_n_model(movements, plans)[q],
            bound + movements,
        ) by {
            assert(move_n_model(movements, plans)[q] == move_n_model(
                (movements - 1) as nat,
                stepped,
            )[q]);
        };
    }
}

/// The outer and inner index an element of a flattened sequence comes from.
spec fn flatten_origin(seqs: Seq<Seq<Seq<Transition>>>, q: int) -> (int, int)
    decreases seqs.len(),
{
    if seqs.len() == 0 {
        (0, 0)
    } else if q < seqs.first().len() {
        (0, q)
    } else {
        let rest = flatten_origin(seqs.drop_first(), q - seqs.first().len());
        (rest.0 + 1, rest.1)
    }
}

/// Every element of a flattened sequence of sequences comes from the inner
/// sequence that `flatten_origin` names.
proof fn lemma_flatten_index_origin(seqs: Seq<Seq<Seq<Transition>>>, q: int)
    requires
        0 <= q < seqs.flatten().len(),
    ensures
        0 <= flatten_origin(seqs, q).0 < seqs.len(),
        0 <= flatten_origin(seqs, q).1 < seqs[flatten_origin(seqs, q).0].len(),
        seqs.flatten()[q] == seqs[flatten_origin(seqs, q).0][flatten_origin(seqs, q).1],
    decreases seqs.len(),
{
    if seqs.len() > 0 {
        if q < seqs.first().len() {
            assert(seqs.flatten()[q] == seqs.first()[q]);
        } else {
            lemma_flatten_index_origin(seqs.drop_first(), q - seqs.first().len());
            let rest = flatten_origin(seqs.drop_first(), q - seqs.first().len());
            assert(seqs[rest.0 + 1] == seqs.drop_first()[rest.0]);
        }
    }
}

impl TransitionSequence {
    /// A plan of `n` positions, each with the zero transition.
    pub fn with_n_default_transitions(n: usize) -> (r: Self)
        ensures
            r@ == zero_plan(n as nat),
    {
        let mut transitions: Vec<Transition> = Vec::new();
        let mut i: usize = 0;
        while i < n
            invariant
                i <= n,
                transitions@ == zero_plan(i as nat),
            decreases n - i,
        {
            transitions.push(Transition { remove: 0, add: 0 });
            proof {
                assert(zero_plan((i + 1) as nat) =~= zero_plan(i as nat).push(zero_transition()));
            }
            i = i + 1;
        }
        TransitionSequence { transitions }
    }

    /// How many positions this plan covers.
    pub fn get_number_of_transitions(&self) -> (n: usize)
        ensures
            n == self@.len(),
    {
        self.transitions.len()
    }

    /// All plans one further relocation can turn this plan into, source
    /// position first, target position second.
    pub fn move_one(&self) -> (r: Vec<TransitionSequence>)
        requires
            plan_bounded(self@, usize::MAX - 1),
        ensures
            plans_of(r@) == move_one_model(self@),
    {
        let n = self.get_number_of_transitions();
        let ghost model = move_one_model(self@);
        let mut new_transition_sequences: Vec<TransitionSequence> = Vec::new();
        let mut source_index: usize = 0;
        while source_index < n
            invariant
                n == self@.len(),
                plan_bounded(self@, usize::MAX - 1),
                source_index <= n,
                model == move_one_model(self@),
                plans_of(new_transition_sequences@) == model.take(source_index as int * n as int),
            decreases n - source_index,
        {
            let mut target_index: usize = 0;
            while target_index < n
                invariant
                    n == self@.len(),
                    plan_bounded(self@, usize::MAX - 1),
                    source_index < n,
                    target_index <= n,
                    model == move_one_model(self@),
                    plans_of(new_transition_sequences@) == model.take(
                        source_index as int * n as int + target_index as int,
                    ),
                decreases n - target_index,
            {
                let ghost k = source_index as int * n as int + target_index as int;
                let mut plan = copy_transitions(&self.transitions);
                let mut source_transition = plan[source_index];
                source_transition.remove_one();
                plan[source_index] = source_transition;
                let mut target_transition = plan[target_index];
                target_transition.add_one();
                plan[target_index] = target_transition;
                proof {
                    vstd::arithmetic::div_mod::lemma_fundamental_div_mod_converse(
                        k,
                        n as int,
                        source_index as int,
                        target_index as int,
                    );
                    assert(0 <= k < n as int * n as int) by (nonlinear_arith)
                        requires
                            0 <= source_index < n as int,
                            0 <= target_index < n as int,
                            k == source_index as int * n as int + target_index as int,
                    ;
                    assert(plan@ == model[k]);
                    assert(model.take(k + 1) =~= model.take(k).push(model[k]));
                }
                new_transition_sequences.push(TransitionSequence { transitions: plan });
                proof {
                    assert(plans_of(new_transition_sequences@) =~= model.take(k + 1));
                }
                target_index = target_index + 1;
            }
            source_index = source_index + 1;
            proof {
                assert(source_index as int * n as int == (source_index - 1) as int * n as int
                    + n as int) by (nonlinear_arith);
            }
        }
        proof {
            assert(model.take(n as int * n as int) =~= model);
        }
        new_transition_sequences
    }

    /// All plans that `number_movements` relocations over `number_elements`
    /// positions can produce, starting from the all-zero plan.
    pub fn move_n(number_movements: usize, number_elements: usize) -> (r: Vec<TransitionSequence>)
        ensures
            plans_of(r@) == move_n_model(
                number_movements as nat,
                seq![zero_plan(number_elements as nat)],
            ),
    {
        let default_transition_sequence = vec![
            Self::with_n_default_transitions(number_elements),
        ];
        proof {
            assert(plans_of(default_transition_sequence@) =~= seq![
                zero_plan(number_elements as nat),
            ]);
        }
        Self::move_n_recursive(number_movements, default_transition_sequence)
    }

    /// All plans that `number_movements` further relocations can turn the
    /// given plans into.
    pub fn move_n_recursive(
        number_movements: usize,
        transition_sequences: Vec<TransitionSequence>,
    ) -> (r: Vec<TransitionSequence>)
        requires
            forall|p: int|
                0 <= p < transition_sequences@.len() ==> plan_bounded(
                    (#[trigger] transition_sequences@[p])@,
                    usize::MAX - number_movements,
                ),
        ensures
            plans_of(r@) == move_n_model(
                number_movements as nat,
                plans_of(transition_sequences@),
            ),
        decreases number_movements,
    {
        broadcast use Seq::lemma_flatten_push;

        if number_movements == 0 {
            return transition_sequences;
        }
        let ghost all = plans_of(transition_sequences@);
        let mut new_transition_sequences: Vec<TransitionSequence> = Vec::new();
        let mut i: usize = 0;
        while i < transition_sequences.len()
            invariant
                number_movements >= 1,
                forall|p: int|
                    0 <= p < transition_sequences@.len() ==> plan_bounded(
                        (#[trigger] transition_sequences@[p])@,
                        usize::MAX - number_movements,
                    ),
                all == plans_of(transition_sequences@),
                i <= transition_sequences.len(),
                plans_of(new_transition_sequences@) == all.take(i as int).map_values(
                    |p: Seq<Transition>| move_one_model(p),
                ).flatten(),
            decreases transition_sequences.len() - i,
        {
            let ghost prev = new_transition_sequences@;
            let mut expanded = transition_sequences[i].move_one();
            let ghost exp = expanded@;
            new_transition_sequences.append(&mut expanded);
            proof {
                let stepper = |p: Seq<Transition>| move_one_model(p);
                assert(plans_of(prev + exp) =~= plans_of(prev) + plans_of(exp));
                assert(all.take(i + 1 as int) =~= all.take(i as int).push(
                    transition_sequences@[i as int]@,
                ));
                assert(all.take(i + 1 as int).map_values(stepper) =~= all.take(
                    i as int,
                ).map_values(stepper).push(move_one_model(transition_sequences@[i as int]@)));
                all.take(i as int).map_values(stepper).lemma_flatten_push(
                    move_one_model(transition_sequences@[i as int]@),
                );
                assert(all.take(i + 1 as int).map_values(stepper).flatten() == all.take(
                    i as int,
                ).map_values(stepper).flatten() + move_one_model(
                    transition_sequences@[i as int]@,
                ));
            }
            i = i + 1;
        }
        proof {
            assert(all.take(all.len() as int) =~= all);
            assert forall|q: int|
                0 <= q < plans_of(new_transition_sequences@).len() implies plan_bounded(
                #[trigger] plans_of(new_transition_sequences@)[q],
                usize::MAX - (number_movements - 1),
            ) by {
                let mapped = all.map_values(|p: Seq<Transition>| move_one_model(p));
                lemma_flatten_index_origin(mapped, q);
                let origin = flatten_origin(mapped, q);
                lemma_move_one_model_shape(all[origin.0], usize::MAX - number_movements);
            };
            assert forall|p: int|
                0 <= p < new_transition_sequences@.len() implies plan_bounded(
                (#[trigger] new_transition_sequences@[p])@,
                usize::MAX - (number_movements - 1),
            ) by {
                assert(plans_of(new_transition_sequences@)[p]
                    == new_transition_sequences@[p]@);
            };
        }
        let rest = Self::move_n_recursive(number_movements - 1, new_transition_sequences);
        proof {
            assert(move_n_model(number_movements as nat, all) == move_n_model(
                (number_movements - 1) as nat,
                all.map_values(|p: Seq<Transition>| move_one_model(p)).flatten(),
            ));
        }
        rest
    }
}

} // verus!
