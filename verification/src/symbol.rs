//! The closed catalog of symbols: the thirteen numeral glyphs and the three
//! operator glyphs, each with its fixed segment pattern and display character.

use vstd::prelude::*;

use crate::segment_display::SegmentDisplay;
use crate::segment_display::added_count;
use crate::segment_display::removed_count;
use crate::transition::Transition;
use crate::transition::zero_transition;

verus! {

/// A glyph with a mathematical meaning: a digit rendering or an operator.
///
/// Digits `1`, `4` and `8` each have two distinct renderings.
#[derive(Clone, Copy, Debug, PartialEq, Eq, Structural)]
pub enum Symbol {
    Minus,
    Plus,
    Equal,
    OneVar1,
    OneVar2,
    Two,
    Three,
    FourVar1,
    FourVar2,
    Five,
    Six,
    Seven,
    EightVar1,
    EightVar2,
    Nine,
    Zero,
}

/// The full catalog, in its fixed order: the numerals first, the
/// operators last.
pub open spec fn all_symbols_seq() -> Seq<Symbol> {
    seq![
        Symbol::OneVar1,
        Symbol::OneVar2,
        Symbol::Two,
        Symbol::Three,
        Symbol::FourVar1,
        Symbol::FourVar2,
        Symbol::Five,
        Symbol::Six,
        Symbol::Seven,
        Symbol::EightVar1,
        Symbol::EightVar2,
        Symbol::Nine,
        Symbol::Zero,
        Symbol::Minus,
        Symbol::Plus,
        Symbol::Equal,
    ]
}

/// The thirteen numeral renderings, in catalog order.
pub open spec fn number_symbols_seq() -> Seq<Symbol> {
    seq![
        Symbol::OneVar1,
        Symbol::OneVar2,
        Symbol::Two,
        Symbol::Three,
        Symbol::FourVar1,
        Symbol::FourVar2,
        Symbol::Five,
        Symbol::Six,
        Symbol::Seven,
        Symbol::EightVar1,
        Symbol::EightVar2,
        Symbol::Nine,
        Symbol::Zero,
    ]
}

/// The three operator symbols, in catalog order.
pub open spec fn operator_symbols_seq() -> Seq<Symbol> {
    seq![Symbol::Minus, Symbol::Plus, Symbol::Equal]
}

impl Symbol {
    /// The segment pattern that renders this symbol.
    pub open spec fn seg_of(self) -> SegmentDisplay {
        match self {
            Symbol::Minus => SegmentDisplay {
                top: false,
                upper_left: false,
                upper_right: false,
                upper_beam: false,
                middle_beam: true,
                pipe: false,
                lower_left: false,
                lower_right: false,
                bottom: false,
            },
            Symbol::Plus => SegmentDisplay {
                top: false,
                upper_left: false,
                upper_right: false,
                upper_beam: false,
                middle_beam: true,
                pipe: true,
                lower_left: false,
                lower_right: false,
                bottom: false,
            },
            Symbol::Equal => SegmentDisplay {
                top: false,
                upper_left: false,
                upper_right: false,
                upper_beam: true,
                middle_beam: true,
                pipe: false,
                lower_left: false,
                lower_right: false,
                bottom: false,
            },
            Symbol::OneVar1 => SegmentDisplay {
                top: false,
                upper_left: false,
                upper_right: true,
                upper_beam: false,
                middle_beam: false,
                pipe: false,
                lower_left: false,
                lower_right: true,
                bottom: false,
            },
            Symbol::OneVar2 => SegmentDisplay {
                top: false,
                upper_left: true,
                upper_right: false,
                upper_beam: false,
                middle_beam: false,
                pipe: false,
                lower_left: true,
                lower_right: false,
                bottom: false,
            },
            Symbol::Two => SegmentDisplay {
                top: true,
                upper_left: false,
                upper_right: true,
                upper_beam: false,
                middle_beam: true,
                pipe: false,
                lower_left: true,
                lower_right: false,
                bottom: true,
            },
            Symbol::Three => SegmentDisplay {
                top: true,
                upper_left: false,
                upper_right: true,
                upper_beam: false,
                middle_beam: true,
                pipe: false,
                lower_left: false,
                lower_right: true,
                bottom: true,
            },
            Symbol::FourVar1 => SegmentDisplay {
                top: false,
                upper_left: true,
                upper_right: true,
                upper_beam: false,
                middle_beam: true,
                pipe: false,
                lower_left: false,
                lower_right: true,
                bottom: false,
            },
            Symbol::FourVar2 => SegmentDisplay {
                top: false,
                upper_left: true,
                upper_right: false,
                upper_beam: false,
                middle_beam: true,
                pipe: true,
                lower_left: false,
                lower_right: false,
                bottom: false,
            },
            Symbol::Five => SegmentDisplay {
                top: true,
                upper_left: true,
                upper_right: false,
                upper_beam: false,
                middle_beam: true,
                pipe: false,
                lower_left: false,
                lower_right: true,
                bottom: true,
            },
            Symbol::Six => SegmentDisplay {
                top: true,
                upper_left: true,
                upper_right: false,
                upper_beam: false,
                middle_beam: true,
                pipe: false,
                lower_left: true,
                lower_right: true,
                bottom: true,
            },
            Symbol::Seven => SegmentDisplay {
                top: true,
                upper_left: false,
                upper_right: true,
                upper_beam: false,
                middle_beam: false,
                pipe: false,
                lower_left: false,
                lower_right: true,
                bottom: false,
            },
            Symbol::EightVar1 => SegmentDisplay {
                top: true,
                upper_left: true,
                upper_right: true,
                upper_beam: false,
                middle_beam: true,
                pipe: false,
                lower_left: true,
                lower_right: true,
                bottom: true,
            },
            Symbol::EightVar2 => SegmentDisplay {
                top: true,
                upper_left: true,
                upper_right: true,
                upper_beam: true,
                middle_beam: true,
                pipe: false,
                lower_left: false,
                lower_right: false,
                bottom: false,
            },
            Symbol::Nine => SegmentDisplay {
                top: true,
                upper_left: true,
                upper_right: true,
                upper_beam: false,
                middle_beam: true,
                pipe: false,
                lower_left: false,
                lower_right: true,
                bottom: true,
            },
            Symbol::Zero => SegmentDisplay {
                top: true,
                upper_left: true,
                upper_right: true,
                upper_beam: false,
                middle_beam: false,
                pipe: false,
                lower_left: true,
                lower_right: true,
                bottom: true,
            },
        }
    }

    /// The single character that writes this symbol in plain text.
    pub open spec fn spec_char(self) -> char {
        match self {
            Symbol::Minus => '-',
            Symbol::Plus => '+',
            Symbol::Equal => '=',
            Symbol::OneVar1 => '1',
            Symbol::OneVar2 => '1',
            Symbol::Two => '2',
            Symbol::Three => '3',
            Symbol::FourVar1 => '4',
            Symbol::FourVar2 => '4',
            Symbol::Five => '5',
            Symbol::Six => '6',
            Symbol::Seven => '7',
            Symbol::EightVar1 => '8',
            Symbol::EightVar2 => '8',
            Symbol::Nine => '9',
            Symbol::Zero => '0',
        }
    }

    /// Whether this symbol is a numeral rendering.
    pub open spec fn is_number(self) -> bool {
        !self.is_operator()
    }

    /// Whether this symbol is one of the operators `+`, `-`, `=`.
    pub open spec fn is_operator(self) -> bool {
        self == Symbol::Minus || self == Symbol::Plus || self == Symbol::Equal
    }

    /// The position of this symbol in the catalog.
    pub open spec fn catalog_index(self) -> int {
        match self {
            Symbol::OneVar1 => 0,
            Symbol::OneVar2 => 1,
            Symbol::Two => 2,
            Symbol::Three => 3,
            Symbol::FourVar1 => 4,
            Symbol::FourVar2 => 5,
            Symbol::Five => 6,
            Symbol::Six => 7,
            Symbol::Seven => 8,
            Symbol::EightVar1 => 9,
            Symbol::EightVar2 => 10,
            Symbol::Nine => 11,
            Symbol::Zero => 12,
            Symbol::Minus => 13,
            Symbol::Plus => 14,
            Symbol::Equal => 15,
        }
    }

    /// All catalog symbols, in catalog order.
    pub fn get_all() -> (r: Vec<Symbol>)
        ensures
            r@ == all_symbols_seq(),
    {
        vec![
            Symbol::OneVar1,
            Symbol::OneVar2,
            Symbol::Two,
            Symbol::Three,
            Symbol::FourVar1,
            Symbol::FourVar2,
            Symbol::Five,
            Symbol::Six,
            Symbol::Seven,
            Symbol::EightVar1,
            Symbol::EightVar2,
            Symbol::Nine,
            Symbol::Zero,
            Symbol::Minus,
            Symbol::Plus,
            Symbol::Equal,
        ]
    }

    /// The plain-text character of this symbol.
    pub fn to_char(&self) -> (c: char)
        ensures
            c == self.spec_char(),
    {
        match self {
            Symbol::Minus => '-',
            Symbol::Plus => '+',
            Symbol::Equal => '=',
            Symbol::OneVar1 => '1',
            Symbol::OneVar2 => '1',
            Symbol::Two => '2',
            Symbol::Three => '3',
            Symbol::FourVar1 => '4',
            Symbol::FourVar2 => '4',
            Symbol::Five => '5',
            Symbol::Six => '6',
            Symbol::Seven => '7',
            Symbol::EightVar1 => '8',
            Symbol::EightVar2 => '8',
            Symbol::Nine => '9',
            Symbol::Zero => '0',
        }
    }

    /// The segment pattern of this symbol, as a value.
    pub(crate) fn to_segment_display(&self) -> (r: SegmentDisplay)
        ensures
            r == self.seg_of(),
    {
        match self {
            Symbol::Minus => SegmentDisplay {
                top: false,
                upper_left: false,
                upper_right: false,
                upper_beam: false,
                middle_beam: true,
                pipe: false,
                lower_left: false,
                lower_right: false,
                bottom: false,
            },
            Symbol::Plus => SegmentDisplay {
                top: false,
                upper_left: false,
                upper_right: false,
                upper_beam: false,
                middle_beam: true,
                pipe: true,
                lower_left: false,
                lower_right: false,
                bottom: false,
            },
            Symbol::Equal => SegmentDisplay {
                top: false,
                upper_left: false,
                upper_right: false,
                upper_beam: true,
                middle_beam: true,
                pipe: false,
                lower_left: false,
                lower_right: false,
                bottom: false,
            },
            Symbol::OneVar1 => SegmentDisplay {
                top: false,
                upper_left: false,
                upper_right: true,
                upper_beam: false,
                middle_beam: false,
                pipe: false,
                lower_left: false,
                lower_right: true,
                bottom: false,
            },
            Symbol::OneVar2 => SegmentDisplay {
                top: false,
                upper_left: true,
                upper_right: false,
                upper_beam: false,
                middle_beam: false,
                pipe: false,
                lower_left: true,
                lower_right: false,
                bottom: false,
            },
            Symbol::Two => SegmentDisplay {
                top: true,
                upper_left: false,
                upper_right: true,
                upper_beam: false,
                middle_beam: true,
                pipe: false,
                lower_left: true,
                lower_right: false,
                bottom: true,
            },
            Symbol::Three => SegmentDisplay {
                top: true,
                upper_left: false,
                upper_right: true,
                upper_beam: false,
                middle_beam: true,
                pipe: false,
                lower_left: false,
                lower_right: true,
                bottom: true,
            },
            Symbol::FourVar1 => SegmentDisplay {
                top: false,
                upper_left: true,
                upper_right: true,
                upper_beam: false,
                middle_beam: true,
                pipe: false,
                lower_left: false,
                lower_right: true,
                bottom: false,
            },
            Symbol::FourVar2 => SegmentDisplay {
                top: false,
                upper_left: true,
                upper_right: false,
                upper_beam: false,
                middle_beam: true,
                pipe: true,
                lower_left: false,
                lower_right: false,
                bottom: false,
            },
            Symbol::Five => SegmentDisplay {
                top: true,
                upper_left: true,
                upper_right: false,
                upper_beam: false,
                middle_beam: true,
                pipe: false,
                lower_left: false,
                lower_right: true,
                bottom: true,
            },
            Symbol::Six => SegmentDisplay {
                top: true,
                upper_left: true,
                upper_right: false,
                upper_beam: false,
                middle_beam: true,
                pipe: false,
                lower_left: true,
                lower_right: true,
                bottom: true,
            },
            Symbol::Seven => SegmentDisplay {
                top: true,
                upper_left: false,
                upper_right: true,
                upper_beam: false,
                middle_beam: false,
                pipe: false,
                lower_left: false,
                lower_right: true,
                bottom: false,
            },
            Symbol::EightVar1 => SegmentDisplay {
                top: true,
                upper_left: true,
                upper_right: true,
                upper_beam: false,
                middle_beam: true,
                pipe: false,
                lower_left: true,
                lower_right: true,
                bottom: true,
            },
            Symbol::EightVar2 => SegmentDisplay {
                top: true,
                upper_left: true,
                upper_right: true,
                upper_beam: true,
                middle_beam: true,
                pipe: false,
                lower_left: false,
                lower_right: false,
                bottom: false,
            },
            Symbol::Nine => SegmentDisplay {
                top: true,
                upper_left: true,
                upper_right: true,
                upper_beam: false,
                middle_beam: true,
                pipe: false,
                lower_left: false,
                lower_right: true,
                bottom: true,
            },
            Symbol::Zero => SegmentDisplay {
                top: true,
                upper_left: true,
                upper_right: true,
                upper_beam: false,
                middle_beam: false,
                pipe: false,
                lower_left: true,
                lower_right: true,
                bottom: true,
            },
        }
    }
}

/// `candidate` is exactly `edit` away from `source`.
pub open spec fn matches_edit(source: Symbol, candidate: Symbol, edit: Transition) -> bool {
    removed_count(source.seg_of(), candidate.seg_of()) == edit.remove
        && added_count(source.seg_of(), candidate.seg_of()) == edit.add
}

/// The symbols of `list`, in order, that are exactly `edit` away from `source`.
pub open spec fn symbols_matching(list: Seq<Symbol>, source: Symbol, edit: Transition) -> Seq<
    Symbol,
>
    decreases list.len(),
{
    if list.len() == 0 {
        Seq::empty()
    } else {
        symbols_matching(list.drop_last(), source, edit) + (if matches_edit(
            source,
            list.last(),
            edit,
        ) {
            seq![list.last()]
        } else {
            Seq::empty()
        })
    }
}

/// The catalog symbols reachable from `source` by `edit`, in catalog order.
pub open spec fn reachable_model(source: Symbol, edit: Transition) -> Seq<Symbol> {
    symbols_matching(all_symbols_seq(), source, edit)
}

impl Symbol {
    /// All catalog symbols that `edit` turns this symbol into.
    pub fn apply_transition(&self, transition: Transition) -> (r: Vec<Symbol>)
        ensures
            r@ == reachable_model(*self, transition),
    {
        let all = Symbol::get_all();
        let source_display = self.to_segment_display();
        let mut collected: Vec<Symbol> = Vec::new();
        let mut i: usize = 0;
        while i < all.len()
            invariant
                all@ == all_symbols_seq(),
                i <= all.len(),
                source_display == self.seg_of(),
                collected@ == symbols_matching(all@.take(i as int), *self, transition),
            decreases all.len() - i,
        {
            let candidate_display = all[i].to_segment_display();
            let delta = source_display.delta_to(&candidate_display);
            if delta == transition {
                collected.push(all[i]);
            }
            proof {
                let prefix = all@.take(i + 1 as int);
                assert(prefix.drop_last() =~= all@.take(i as int));
                assert(prefix.last() == all@[i as int]);
            }
            i = i + 1;
        }
        proof {
            assert(all@.take(all@.len() as int) =~= all@);
        }
        collected
    }
}

/// A category of symbols: every symbol, the numerals, the operators, or an
/// explicit list.
#[derive(Clone, Debug, PartialEq)]
pub enum SymbolFilter {
    IsAny,
    IsNumber,
    IsOperator,
    List(Vec<Symbol>),
}

/// The symbols a filter stands for, in a fixed order: the catalog order for
/// the built-in categories, the list's own order for an explicit list.
pub open spec fn corresponding_model(filter: SymbolFilter) -> Seq<Symbol> {
    match filter {
        SymbolFilter::IsAny => all_symbols_seq(),
        SymbolFilter::IsNumber => number_symbols_seq(),
        SymbolFilter::IsOperator => operator_symbols_seq(),
        SymbolFilter::List(symbols) => symbols@,
    }
}

/// A fresh vector holding the same symbols.
pub(crate) fn copy_symbols(v: &Vec<Symbol>) -> (r: Vec<Symbol>)
    ensures
        r@ == v@,
{
    let mut r: Vec<Symbol> = Vec::new();
    let mut i: usize = 0;
    while i < v.len()
        invariant
            i <= v.len(),
            r@ == v@.take(i as int),
        decreases v.len() - i,
    {
        r.push(v[i]);
        proof {
            assert(v@.take(i + 1 as int) =~= v@.take(i as int).push(v@[i as int]));
        }
        i = i + 1;
    }
    proof {
        assert(v@.take(v@.len() as int) =~= v@);
    }
    r
}

impl SymbolFilter {
    /// The symbols this filter stands for.
    pub fn get_corresponding_symbols(&self) -> (r: Vec<Symbol>)
        ensures
            r@ == corresponding_model(*self),
    {
        match self {
            SymbolFilter::IsAny => Symbol::get_all(),
            SymbolFilter::IsNumber => vec![
                Symbol::OneVar1,
                Symbol::OneVar2,
                Symbol::Two,
                Symbol::Three,
                Symbol::FourVar1,
                Symbol::FourVar2,
                Symbol::Five,
                Symbol::Six,
                Symbol::Seven,
                Symbol::EightVar1,
                Symbol::EightVar2,
                Symbol::Nine,
                Symbol::Zero,
            ],
            SymbolFilter::IsOperator => vec![Symbol::Minus, Symbol::Plus, Symbol::Equal],
            SymbolFilter::List(symbols) => copy_symbols(symbols),
        }
    }
}

/// Two symbols with the same segment pattern are the same symbol.
pub proof fn lemma_seg_injective(a: Symbol, b: Symbol)
    requires
        a.seg_of() == b.seg_of(),
    ensures
        a == b,
{
}

/// Each symbol sits at its catalog index, and nowhere else in the catalog.
pub proof fn lemma_catalog_index(s: Symbol)
    ensures
        0 <= s.catalog_index() < all_symbols_seq().len(),
        all_symbols_seq()[s.catalog_index()] == s,
        forall|j: int|
            0 <= j < all_symbols_seq().len() && j != s.catalog_index()
                ==> all_symbols_seq()[j] != s,
{
}

/// A list without a match filters to the empty sequence.
proof fn lemma_matching_empty(list: Seq<Symbol>, source: Symbol, edit: Transition)
    requires
        forall|i: int| 0 <= i < list.len() ==> !matches_edit(source, #[trigger] list[i], edit),
    ensures
        symbols_matching(list, source, edit) == Seq::<Symbol>::empty(),
    decreases list.len(),
{
    if list.len() > 0 {
        assert(forall|i: int|
            0 <= i < list.drop_last().len() ==> !matches_edit(
                source,
                #[trigger] list.drop_last()[i],
                edit,
            ));
        lemma_matching_empty(list.drop_last(), source, edit);
        assert(!matches_edit(source, list.last(), edit));
        assert(symbols_matching(list, source, edit) =~= Seq::<Symbol>::empty());
    }
}

/// A list whose single match sits at `k` filters to exactly that symbol.
proof fn lemma_matching_single(list: Seq<Symbol>, source: Symbol, edit: Transition, k: int)
    requires
        0 <= k < list.len(),
        matches_edit(source, list[k], edit),
        forall|j: int|
            0 <= j < list.len() && j != k ==> !matches_edit(source, #[trigger] list[j], edit),
    ensures
        symbols_matching(list, source, edit) == seq![list[k]],
    decreases list.len(),
{
    if k == list.len() - 1 {
        assert(forall|i: int|
            0 <= i < list.drop_last().len() ==> !matches_edit(
                source,
                #[trigger] list.drop_last()[i],
                edit,
            ));
        lemma_matching_empty(list.drop_last(), source, edit);
        assert(symbols_matching(list, source, edit) =~= seq![list[k]]);
    } else {
        assert(list.drop_last()[k] == list[k]);
        assert(forall|j: int|
            0 <= j < list.drop_last().len() && j != k ==> !matches_edit(
                source,
                #[trigger] list.drop_last()[j],
                edit,
            ));
        lemma_matching_single(list.drop_last(), source, edit, k);
        assert(!matches_edit(source, list.last(), edit));
        assert(symbols_matching(list, source, edit) =~= seq![list[k]]);
    }
}

/// Whatever matches somewhere in the list survives the filtering.
proof fn lemma_matching_contains(list: Seq<Symbol>, source: Symbol, edit: Transition, k: int)
    requires
        0 <= k < list.len(),
        matches_edit(source, list[k], edit),
    ensures
        symbols_matching(list, source, edit).contains(list[k]),
    decreases list.len(),
{
    if k == list.len() - 1 {
        let rest = symbols_matching(list.drop_last(), source, edit);
        assert(symbols_matching(list, source, edit)[rest.len() as int] == list[k]);
    } else {
        assert(list.drop_last()[k] == list[k]);
        lemma_matching_contains(list.drop_last(), source, edit, k);
        let rest = symbols_matching(list.drop_last(), source, edit);
        let j = choose|j: int| 0 <= j < rest.len() && rest[j] == list[k];
        assert(symbols_matching(list, source, edit)[j] == list[k]);
    }
}

/// Law: a symbol's edit to itself is the zero edit, and the zero edit reaches
/// exactly the symbol itself.
pub proof fn lemma_zero_edit_reaches_self(s: Symbol)
    ensures
        removed_count(s.seg_of(), s.seg_of()) == 0,
        added_count(s.seg_of(), s.seg_of()) == 0,
        reachable_model(s, zero_transition()) == seq![s],
{
    crate::segment_display::lemma_delta_self_zero(s.seg_of());
    lemma_catalog_index(s);
    assert forall|j: int|
        0 <= j < all_symbols_seq().len() && j != s.catalog_index() implies !matches_edit(
        s,
        #[trigger] all_symbols_seq()[j],
        zero_transition(),
    ) by {
        if matches_edit(s, all_symbols_seq()[j], zero_transition()) {
            crate::segment_display::lemma_delta_zero_same_glyph(
                s.seg_of(),
                all_symbols_seq()[j].seg_of(),
            );
            lemma_seg_injective(s, all_symbols_seq()[j]);
        }
    };
    assert(matches_edit(s, s, zero_transition()));
    lemma_matching_single(all_symbols_seq(), s, zero_transition(), s.catalog_index());
}

/// Law: the target of an edit measured from a source symbol is always among
/// the symbols that the edit reaches from that source.
pub proof fn lemma_measured_edit_reaches_target(source: Symbol, target: Symbol, edit: Transition)
    requires
        edit.remove == removed_count(source.seg_of(), target.seg_of()),
        edit.add == added_count(source.seg_of(), target.seg_of()),
    ensures
        reachable_model(source, edit).contains(target),
{
    lemma_catalog_index(target);
    lemma_matching_contains(all_symbols_seq(), source, edit, target.catalog_index());
}

/// The numeral sequence holds exactly the numeral symbols.
pub proof fn lemma_number_membership(x: Symbol)
    ensures
        number_symbols_seq().contains(x) <==> x.is_number(),
{
    if x.is_number() {
        lemma_catalog_index(x);
        match x {
            Symbol::OneVar1 => assert(number_symbols_seq()[0] == x),
            Symbol::OneVar2 => assert(number_symbols_seq()[1] == x),
            Symbol::Two => assert(number_symbols_seq()[2] == x),
            Symbol::Three => assert(number_symbols_seq()[3] == x),
            Symbol::FourVar1 => assert(number_symbols_seq()[4] == x),
            Symbol::FourVar2 => assert(number_symbols_seq()[5] == x),
            Symbol::Five => assert(number_symbols_seq()[6] == x),
            Symbol::Six => assert(number_symbols_seq()[7] == x),
            Symbol::Seven => assert(number_symbols_seq()[8] == x),
            Symbol::EightVar1 => assert(number_symbols_seq()[9] == x),
            Symbol::EightVar2 => assert(number_symbols_seq()[10] == x),
            Symbol::Nine => assert(number_symbols_seq()[11] == x),
            Symbol::Zero => assert(number_symbols_seq()[12] == x),
            _ => assert(false),
        }
    }
    if number_symbols_seq().contains(x) {
        let j = choose|j: int|
            0 <= j < number_symbols_seq().len() && number_symbols_seq()[j] == x;
        assert(number_symbols_seq()[j].is_number());
    }
}

/// The operator sequence holds exactly the operator symbols.
pub proof fn lemma_operator_membership(x: Symbol)
    ensures
        operator_symbols_seq().contains(x) <==> x.is_operator(),
{
    if x.is_operator() {
        match x {
            Symbol::Minus => assert(operator_symbols_seq()[0] == x),
            Symbol::Plus => assert(operator_symbols_seq()[1] == x),
            Symbol::Equal => assert(operator_symbols_seq()[2] == x),
            _ => assert(false),
        }
    }
    if operator_symbols_seq().contains(x) {
        let j = choose|j: int|
            0 <= j < operator_symbols_seq().len() && operator_symbols_seq()[j] == x;
        assert(operator_symbols_seq()[j].is_operator());
    }
}

/// Law: the numeral and operator categories partition the catalog. They share
/// no symbol, together they cover all sixteen symbols, and they have thirteen
/// and three members.
pub proof fn lemma_category_partition()
    ensures
        number_symbols_seq().to_set().intersect(operator_symbols_seq().to_set())
            == Set::<Symbol>::empty(),
        number_symbols_seq().to_set().union(operator_symbols_seq().to_set())
            == all_symbols_seq().to_set(),
        number_symbols_seq().len() == 13,
        operator_symbols_seq().len() == 3,
        all_symbols_seq().len() == 16,
{
    assert forall|x: Symbol|
        !(number_symbols_seq().to_set().intersect(operator_symbols_seq().to_set()).contains(
            x,
        )) by {
        lemma_number_membership(x);
        lemma_operator_membership(x);
    };
    assert(number_symbols_seq().to_set().intersect(operator_symbols_seq().to_set())
        =~= Set::<Symbol>::empty());
    assert forall|x: Symbol|
        number_symbols_seq().to_set().union(operator_symbols_seq().to_set()).contains(x)
            == all_symbols_seq().to_set().contains(x) by {
        lemma_number_membership(x);
        lemma_operator_membership(x);
        lemma_catalog_index(x);
        assert(all_symbols_seq().contains(x));
    };
    assert(number_symbols_seq().to_set().union(operator_symbols_seq().to_set())
        =~= all_symbols_seq().to_set());
}

impl Symbol {
    /// The plain-text rendering of this symbol, a single character.
    pub fn to_str(&self) -> (r: &'static str)
        ensures
            r@ == seq![self.spec_char()],
    {
        match self {
            Symbol::Minus => {
                proof {
                    reveal_strlit("-");
                    assert(("-")@ =~= seq![self.spec_char()]);
                }
                "-"
            },
            Symbol::Plus => {
                proof {
                    reveal_strlit("+");
                    assert(("+")@ =~= seq![self.spec_char()]);
                }
                "+"
            },
            Symbol::Equal => {
                proof {
                    reveal_strlit("=");
                    assert(("=")@ =~= seq![self.spec_char()]);
                }
                "="
            },
            Symbol::OneVar1 => {
                proof {
                    reveal_strlit("1");
                    assert(("1")@ =~= seq![self.spec_char()]);
                }
                "1"
            },
            Symbol::OneVar2 => {
                proof {
                    reveal_strlit("1");
                    assert(("1")@ =~= seq![self.spec_char()]);
                }
                "1"
            },
            Symbol::Two => {
                proof {
                    reveal_strlit("2");
                    assert(("2")@ =~= seq![self.spec_char()]);
                }
                "2"
            },
            Symbol::Three => {
                proof {
                    reveal_strlit("3");
                    assert(("3")@ =~= seq![self.spec_char()]);
                }
                "3"
            },
            Symbol::FourVar1 => {
                proof {
                    reveal_strlit("4");
                    assert(("4")@ =~= seq![self.spec_char()]);
                }
                "4"
            },
            Symbol::FourVar2 => {
                proof {
                    reveal_strlit("4");
                    assert(("4")@ =~= seq![self.spec_char()]);
                }
                "4"
            },
            Symbol::Five => {
                proof {
                    reveal_strlit("5");
                    assert(("5")@ =~= seq![self.spec_char()]);
                }
                "5"
            },
            Symbol::Six => {
                proof {
                    reveal_strlit("6");
                    assert(("6")@ =~= seq![self.spec_char()]);
                }
                "6"
            },
            Symbol::Seven => {
                proof {
                    reveal_strlit("7");
                    assert(("7")@ =~= seq![self.spec_char()]);
                }
                "7"
            },
            Symbol::EightVar1 => {
                proof {
                    reveal_strlit("8");
                    assert(("8")@ =~= seq![self.spec_char()]);
                }
                "8"
            },
            Symbol::EightVar2 => {
                proof {
                    reveal_strlit("8");
                    assert(("8")@ =~= seq![self.spec_char()]);
                }
                "8"
            },
            Symbol::Nine => {
                proof {
                    reveal_strlit("9");
                    assert(("9")@ =~= seq![self.spec_char()]);
                }
                "9"
            },
            Symbol::Zero => {
                proof {
                    reveal_strlit("0");
                    assert(("0")@ =~= seq![self.spec_char()]);
                }
                "0"
            },
        }
    }
}

impl Symbol {
    /// The five-line matchstick drawing of this symbol.
    pub fn draw(&self) -> (r: String)
        ensures
            r@ == crate::segment_display::spec_draw(self.seg_of()),
    {
        let segment_display = self.to_segment_display();
        segment_display.draw()
    }
}

} // verus!
