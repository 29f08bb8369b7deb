use matchstick::symbol::Symbol;
use matchstick::symbol::SymbolFilter;
use matchstick::transition::Transition;

#[test]
fn get_numbers_symbols() {
    let number_symbols = vec![
        Symbol::OneVar1,
        Symbol::OneVar2,
        Symbol::Two,
        Symbol::Three,
        Symbol::FourVar1,
        Symbol::FourVar2,
        Symbol::Five,
        Symbol::Six,
        Symbol::Seven,
        Symbol::EightVar1,
        Symbol::EightVar2,
        Symbol::Nine,
        Symbol::Zero,
    ];

    assert_eq!(
        number_symbols,
        SymbolFilter::IsNumber.get_corresponding_symbols()
    );
}

#[test]
fn get_no_numbers_symbols() {
    let no_number_symbols = vec![Symbol::Minus, Symbol::Plus, Symbol::Equal];

    assert_eq!(
        no_number_symbols,
        SymbolFilter::IsOperator.get_corresponding_symbols()
    );
}

#[test]
fn symbol_filter_no_restrictions() {
    assert_eq!(
        SymbolFilter::IsAny.get_corresponding_symbols(),
        Symbol::get_all()
    );
}

#[test]
fn category_partition_sizes() {
    let numbers = SymbolFilter::IsNumber.get_corresponding_symbols();
    let operators = SymbolFilter::IsOperator.get_corresponding_symbols();
    let all = SymbolFilter::IsAny.get_corresponding_symbols();
    assert_eq!(13, numbers.len());
    assert_eq!(3, operators.len());
    assert_eq!(16, all.len());
    for symbol in &all {
        assert!(numbers.contains(symbol) != operators.contains(symbol));
    }
}

#[test]
fn symbol_filter_list_is_kept_as_given() {
    let list = vec![Symbol::Three, Symbol::Three, Symbol::Equal];
    assert_eq!(
        list.clone(),
        SymbolFilter::List(list).get_corresponding_symbols()
    );
}

#[test]
fn zero_transition_reaches_only_the_symbol_itself() {
    for symbol in Symbol::get_all() {
        let reached = symbol.apply_transition(Transition { remove: 0, add: 0 });
        assert_eq!(vec![symbol], reached);
    }
}

#[test]
fn adding_one_segment_to_five_gives_six_or_nine() {
    let reached = Symbol::Five.apply_transition(Transition { remove: 0, add: 1 });
    assert_eq!(vec![Symbol::Six, Symbol::Nine], reached);
}

#[test]
fn symbol_to_str_is_its_character() {
    assert_eq!("+", Symbol::Plus.to_str());
    assert_eq!("-", Symbol::Minus.to_str());
    assert_eq!("=", Symbol::Equal.to_str());
    assert_eq!("1", Symbol::OneVar1.to_str());
    assert_eq!("1", Symbol::OneVar2.to_str());
    assert_eq!("8", Symbol::EightVar2.to_str());
    assert_eq!("0", Symbol::Zero.to_str());
}

#[test]
fn draw_seven() {
    let expected = " ___ \n    |\n    |\n    |\n    |";
    assert_eq!(expected, Symbol::Seven.draw());
}
