//! Cartesian combination of per-position symbol choices.

use vstd::prelude::*;

use itertools::Itertools;

use crate::symbol::Symbol;

verus! {

/// Every way of picking one symbol from each pool, in order: the first pool
/// varies slowest. No pools at all leave exactly the one empty pick; one
/// empty pool leaves no pick.
pub open spec fn product_model(pools: Seq<Seq<Symbol>>) -> Seq<Seq<Symbol>>
    decreases pools.len(),
{
    if pools.len() == 0 {
        seq![Seq::empty()]
    } else {
        let rest = product_model(pools.drop_first());
        pools.first().map_values(
            |x: Symbol| rest.map_values(|c: Seq<Symbol>| seq![x] + c),
        ).flatten()
    }
}

/// Relies on itertools' `multi_cartesian_product`: it yields every way of
/// picking one element per inner collection as a `Vec`, ordered with the
/// first collection varying slowest; with no collections at all it yields a
/// single empty `Vec`, and with any empty collection it yields nothing.
#[verifier::external_body]
pub(crate) fn multi_product(pools: Vec<Vec<Symbol>>) -> (r: Vec<Vec<Symbol>>)
    ensures
        r@.map_values(|v: Vec<Symbol>| v@) == product_model(
            pools@.map_values(|p: Vec<Symbol>| p@),
        ),
{
    pools.into_iter().map(|pool| pool.into_iter()).multi_cartesian_product().collect()
}

/// How many picks the pools allow: the product of their sizes.
pub open spec fn pools_count(pools: Seq<Seq<Symbol>>) -> int
    decreases pools.len(),
{
    if pools.len() == 0 {
        1
    } else {
        pools.first().len() * pools_count(pools.drop_first())
    }
}

/// A flattened sequence whose elements all have one length has the product
/// of the two lengths.
proof fn lemma_flatten_len_uniform(seqs: Seq<Seq<Seq<Symbol>>>, inner: int)
    requires
        forall|i: int| 0 <= i < seqs.len() ==> (#[trigger] seqs[i]).len() == inner,
    ensures
        seqs.flatten().len() == seqs.len() * inner,
    decreases seqs.len(),
{
    if seqs.len() == 0 {
    } else {
        assert(forall|i: int|
            0 <= i < seqs.drop_first().len() ==> (#[trigger] seqs.drop_first()[i]).len()
                == inner);
        lemma_flatten_len_uniform(seqs.drop_first(), inner);
        assert(seqs[0].len() == inner);
        assert(seqs.len() * inner == inner + (seqs.len() - 1) * inner) by (nonlinear_arith);
    }
}

/// Law: a pattern expands into exactly the product of its per-position
/// choice counts.
pub proof fn lemma_product_model_len(pools: Seq<Seq<Symbol>>)
    ensures
        product_model(pools).len() == pools_count(pools),
    decreases pools.len(),
{
    if pools.len() > 0 {
        lemma_product_model_len(pools.drop_first());
        let rest = product_model(pools.drop_first());
        let mapped = pools.first().map_values(
            |x: Symbol| rest.map_values(|c: Seq<Symbol>| seq![x] + c),
        );
        assert(forall|i: int| 0 <= i < mapped.len() ==> (#[trigger] mapped[i]).len()
            == rest.len());
        lemma_flatten_len_uniform(mapped, rest.len() as int);
    }
}

/// A product over single-symbol pools is exactly the one pick through them.
pub proof fn lemma_product_of_singletons(pools: Seq<Seq<Symbol>>, picks: Seq<Symbol>)
    requires
        pools.len() == picks.len(),
        forall|i: int| 0 <= i < pools.len() ==> #[trigger] pools[i] == seq![picks[i]],
    ensures
        product_model(pools) == seq![picks],
    decreases pools.len(),
{
    broadcast use Seq::lemma_flatten_singleton;

    if pools.len() == 0 {
        assert(picks =~= Seq::<Symbol>::empty());
    } else {
        assert(forall|i: int|
            0 <= i < pools.drop_first().len() ==> #[trigger] pools.drop_first()[i] == seq![
                picks.drop_first()[i],
            ]);
        lemma_product_of_singletons(pools.drop_first(), picks.drop_first());
        let rest = product_model(pools.drop_first());
        let mapped = pools.first().map_values(
            |x: Symbol| rest.map_values(|c: Seq<Symbol>| seq![x] + c),
        );
        assert(pools.first() == seq![picks[0]]);
        assert(mapped.len() == 1);
        assert(mapped[0] == rest.map_values(|c: Seq<Symbol>| seq![picks[0]] + c));
        assert(mapped[0] =~= seq![seq![picks[0]] + picks.drop_first()]);
        assert(seq![picks[0]] + picks.drop_first() =~= picks);
        assert(product_model(pools) == mapped[0]);
    }
}

/// A flattened sequence of single-element sequences is the sequence of the
/// elements.
proof fn lemma_flatten_of_singletons(seqs: Seq<Seq<Seq<Symbol>>>, elems: Seq<Seq<Symbol>>)
    requires
        seqs.len() == elems.len(),
        forall|i: int| 0 <= i < seqs.len() ==> #[trigger] seqs[i] == seq![elems[i]],
    ensures
        seqs.flatten() == elems,
    decreases seqs.len(),
{
    if seqs.len() == 0 {
        assert(seqs.flatten() =~= elems);
    } else {
        assert(forall|i: int|
            0 <= i < seqs.drop_first().len() ==> #[trigger] seqs.drop_first()[i] == seq![
                elems.drop_first()[i],
            ]);
        lemma_flatten_of_singletons(seqs.drop_first(), elems.drop_first());
        assert(seqs.flatten() =~= elems);
    }
}

/// A product over a single pool picks each of its symbols alone.
pub proof fn lemma_product_single_pool(pool: Seq<Symbol>)
    ensures
        product_model(seq![pool]) == pool.map_values(|x: Symbol| seq![x]),
{
    let pools = seq![pool];
    assert(pools.drop_first() =~= Seq::<Seq<Symbol>>::empty());
    let rest = product_model(pools.drop_first());
    assert(rest == seq![Seq::<Symbol>::empty()]);
    let mapped = pools.first().map_values(|x: Symbol| rest.map_values(|c: Seq<Symbol>| seq![x] + c));
    assert forall|i: int| 0 <= i < mapped.len() implies #[trigger] mapped[i] == seq![
        pool.map_values(|x: Symbol| seq![x])[i],
    ] by {
        assert(mapped[i] =~= seq![seq![pool[i]] + Seq::<Symbol>::empty()]);
        assert(seq![pool[i]] + Seq::<Symbol>::empty() =~= seq![pool[i]]);
        assert(mapped[i] =~= seq![pool.map_values(|x: Symbol| seq![x])[i]]);
    };
    lemma_flatten_of_singletons(mapped, pool.map_values(|x: Symbol| seq![x]));
}

} // verus!
