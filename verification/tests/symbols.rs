use onnx_ml::symbols::{guess_scenario_from_checks, symbol_text, NoPossibleScenario, SymbolScopeData, SymbolValues};

#[test]
fn sym_is_idempotent() {
    let mut s: SymbolScopeData<String> = SymbolScopeData::new(1);
    let a = s.sym("N");
    let b = s.sym("N");
    assert_eq!(a, b);
    assert_eq!(s.num_symbols(), 1);
    let c = s.sym("M");
    assert_ne!(a, c);
    assert_eq!(s.num_symbols(), 2);
}

#[test]
fn get_finds_interned_names_only() {
    let mut s: SymbolScopeData<String> = SymbolScopeData::new(3);
    assert!(s.get("S").is_none());
    let a = s.sym("S");
    assert_eq!(s.get("S"), Some(a));
    assert_eq!(a.scope_id(), 3);
    assert_eq!(a.index(), 0);
    assert_eq!(s.resolve(&a), Some("S"));
}

#[test]
fn new_with_prefix_picks_fresh_names() {
    let mut s: SymbolScopeData<String> = SymbolScopeData::new(1);
    let p = s.new_with_prefix("x");
    assert_eq!(s.resolve(&p), Some("x"));
    let p0 = s.new_with_prefix("x");
    assert_eq!(s.resolve(&p0), Some("x_0"));
    let p1 = s.new_with_prefix("x");
    assert_eq!(s.resolve(&p1), Some("x_1"));
    // a taken candidate is skipped
    s.sym("y");
    s.sym("y_0");
    let q = s.new_with_prefix("y");
    assert_eq!(s.resolve(&q), Some("y_1"));
    assert_eq!(s.num_symbols(), 6);
}

#[test]
fn new_with_prefix_skips_a_gap_in_order() {
    let mut s: SymbolScopeData<String> = SymbolScopeData::new(1);
    s.sym("t");
    s.sym("t_1");
    let q = s.new_with_prefix("t");
    assert_eq!(s.resolve(&q), Some("t_0"));
}

#[test]
fn all_symbols_in_order() {
    let mut s: SymbolScopeData<String> = SymbolScopeData::new(9);
    s.sym("a");
    s.sym("b");
    s.sym("a");
    let all = s.all_symbols();
    assert_eq!(all.len(), 2);
    assert_eq!(s.resolve(&all[0]), Some("a"));
    assert_eq!(s.resolve(&all[1]), Some("b"));
    assert!(all.iter().all(|x| x.scope_id() == 9));
}

#[test]
fn symbols_equal_by_index() {
    let mut s1: SymbolScopeData<String> = SymbolScopeData::new(1);
    let mut s2: SymbolScopeData<String> = SymbolScopeData::new(2);
    let a = s1.sym("a");
    let b = s2.sym("b");
    assert_eq!(a, b);
}

#[test]
fn symbol_text_resolves_or_falls_back() {
    let mut s: SymbolScopeData<String> = SymbolScopeData::new(1);
    let a = s.sym("batch");
    assert_eq!(symbol_text(Some(&s), &a), "batch");
    assert_eq!(symbol_text::<String>(None, &a), "<Sym0>");
    let mut other: SymbolScopeData<String> = SymbolScopeData::new(2);
    other.sym("u");
    other.sym("v");
    other.sym("w");
    other.sym("z");
    let z = other.sym("z");
    assert_eq!(symbol_text(Some(&s), &z), "<Sym3>");
}

#[test]
fn scenarios_keep_distinct_names() {
    let mut s: SymbolScopeData<String> = SymbolScopeData::new(1);
    s.add_scenario("small".to_string());
    s.add_scenario("large".to_string());
    s.add_scenario("small".to_string());
    assert_eq!(s.scenarios(), vec!["small", "large"]);
    assert_eq!(s.scenario("small"), Some(&vec![]));
    assert_eq!(s.scenario("medium"), None);
}

#[test]
fn scenario_assertions_accumulate() {
    let mut s: SymbolScopeData<String> = SymbolScopeData::new(1);
    s.add_assertion("S>=0".to_string());
    s.add_scenario_assertion("small".to_string(), "S<16".to_string());
    s.add_scenario_assertion("large".to_string(), "S>=16".to_string());
    s.add_scenario_assertion("small".to_string(), "S>=1".to_string());
    assert_eq!(s.scenarios(), vec!["small", "large"]);
    assert_eq!(s.scenario("small"), Some(&vec!["S<16".to_string(), "S>=1".to_string()]));
    let (global, specific) = s.assertions(Some("large"));
    assert_eq!(global, &vec!["S>=0".to_string()]);
    assert_eq!(specific, Some(&vec!["S>=16".to_string()]));
    let (_, none) = s.assertions(None);
    assert_eq!(none, None);
    assert_eq!(s.all_assertions(), &vec!["S>=0".to_string()]);
    assert_eq!(s.all_scenarios().len(), 2);
}

#[test]
fn guess_scenario_cases() {
    // no scenario: unknown
    assert_eq!(guess_scenario_from_checks(&vec![]), Ok(None));
    // first confirmed wins
    assert_eq!(guess_scenario_from_checks(&vec![vec![Some(false)], vec![Some(true), Some(true)]]), Ok(Some(1)));
    // one undecided, others refuted
    assert_eq!(guess_scenario_from_checks(&vec![vec![None], vec![Some(false)]]), Ok(Some(0)));
    // two undecided: unknown
    assert_eq!(guess_scenario_from_checks(&vec![vec![None], vec![Some(true), None]]), Ok(None));
    // undecided then confirmed: the confirmed one
    assert_eq!(guess_scenario_from_checks(&vec![vec![None], vec![Some(true)]]), Ok(Some(1)));
    // all refuted
    assert_eq!(guess_scenario_from_checks(&vec![vec![Some(false)], vec![Some(true), Some(false)]]), Err(NoPossibleScenario));
    // a scenario without assertion is confirmed
    assert_eq!(guess_scenario_from_checks(&vec![vec![Some(false)], vec![]]), Ok(Some(1)));
}

#[test]
fn guess_scenario_on_scope() {
    let mut s: SymbolScopeData<String> = SymbolScopeData::new(1);
    s.add_scenario_assertion("a".to_string(), "S<4".to_string());
    s.add_scenario_assertion("b".to_string(), "S>=4".to_string());
    assert_eq!(s.guess_scenario(&vec![vec![Some(false)], vec![Some(true)]]), Ok(Some(1)));
}

#[test]
fn symbol_values_set_and_get() {
    let mut s: SymbolScopeData<String> = SymbolScopeData::new(1);
    let n = s.sym("N");
    let m = s.sym("M");
    let mut v = SymbolValues::new().with(&n, 4);
    assert_eq!(v.get(&n), Some(4));
    assert_eq!(v.get(&m), None);
    v.set(&m, -2);
    v.set(&n, 5);
    assert_eq!(v.get(&n), Some(5));
    assert_eq!(v.get(&m), Some(-2));
    assert_eq!(SymbolValues::default().get(&n), None);
}

#[test]
fn symbols_order_by_interning() {
    let mut s: SymbolScopeData<String> = SymbolScopeData::new(2);
    let a = s.sym("A");
    let b = s.sym("B");
    assert!(a < b);
    assert!(b > a);
    assert_eq!(a.partial_cmp(&s.sym("A")), Some(std::cmp::Ordering::Equal));
    let mut t: SymbolScopeData<String> = SymbolScopeData::new(5);
    let z = t.sym("Z");
    assert!(!(z < a) && !(a < z));
}
