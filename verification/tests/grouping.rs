use backtester::backtester::group_by_symbol;
use backtester::data::Symbol;

fn syms(names: &[&str]) -> Vec<Symbol> {
    names.iter().map(|n| Symbol(n.to_string())).collect()
}

#[test]
fn symbols_compare_by_text() {
    assert_eq!(Symbol("AAPL".to_string()), Symbol("AAPL".to_string()));
    assert_ne!(Symbol("AAPL".to_string()), Symbol("aapl".to_string()));
    assert_eq!(Symbol("BTC/USD".to_string()).duplicate(), Symbol("BTC/USD".to_string()));
}

#[test]
fn no_fills_no_groups() {
    assert!(group_by_symbol(&Vec::new()).is_empty());
}

#[test]
fn fills_grouped_in_first_seen_order() {
    let groups = group_by_symbol(&syms(&["BTC/USD", "AAPL", "BTC/USD", "ETH/USD", "AAPL", "BTC/USD"]));
    assert_eq!(
        groups,
        vec![
            (Symbol("BTC/USD".to_string()), vec![0, 2, 5]),
            (Symbol("AAPL".to_string()), vec![1, 4]),
            (Symbol("ETH/USD".to_string()), vec![3]),
        ]
    );
}

#[test]
fn one_symbol_one_group() {
    let groups = group_by_symbol(&syms(&["AAPL", "AAPL", "AAPL"]));
    assert_eq!(groups, vec![(Symbol("AAPL".to_string()), vec![0, 1, 2])]);
}

#[test]
fn every_fill_in_exactly_one_group() {
    let input = syms(&["A", "B", "C", "B", "A", "D", "C", "C"]);
    let groups = group_by_symbol(&input);
    let mut seen = vec![0usize; input.len()];
    for (symbol, fills) in &groups {
        for &i in fills {
            assert_eq!(&input[i], symbol);
            seen[i] += 1;
        }
        assert!(fills.windows(2).all(|w| w[0] < w[1]));
    }
    assert!(seen.iter().all(|&n| n == 1));
    assert_eq!(groups.len(), 4);
}
