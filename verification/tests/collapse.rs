use quantum_core::collapse::{best_copresence, best_pair_in, collapse_search, CollapseRefusal};

fn v(items: &[&str]) -> Vec<String> {
    items.iter().map(|s| s.to_string()).collect()
}

#[test]
fn strongest_copresence_wins() {
    let frags = v(&["Alpha beta", "alpha gamma beta", "nothing here"]);
    let (best, survivors) = best_copresence(&frags, &v(&["alpha"]), &v(&["beta", "gamma"]));
    assert_eq!(best, Some(("alpha".to_string(), "beta".to_string(), 2)));
    assert_eq!(survivors, 2);
}

#[test]
fn ties_go_to_the_lexicographically_first_pair() {
    let frags = v(&["a b c"]);
    let (best, survivors) = best_copresence(&frags, &v(&["b", "a"]), &v(&["c"]));
    assert_eq!(best, Some(("a".to_string(), "c".to_string(), 1)));
    assert_eq!(survivors, 2);
    let (best, _) = best_copresence(&frags, &v(&["a"]), &v(&["c", "b"]));
    assert_eq!(best, Some(("a".to_string(), "b".to_string(), 1)));
}

#[test]
fn no_copresence_finds_nothing() {
    let frags = v(&["x y"]);
    assert_eq!(best_copresence(&frags, &v(&["a"]), &v(&["b"])), (None, 0));
    assert_eq!(best_copresence(&frags, &v(&[]), &v(&["x"])), (None, 0));
}

#[test]
fn fragments_are_lowercased_but_terms_are_not() {
    let frags = v(&["Alpha Beta"]);
    assert_eq!(best_copresence(&frags, &v(&["Alpha"]), &v(&["beta"])), (None, 0));
    let (best, survivors) = best_copresence(&frags, &v(&["alpha"]), &v(&["beta"]));
    assert_eq!(best, Some(("alpha".to_string(), "beta".to_string(), 1)));
    assert_eq!(survivors, 1);
}

#[test]
fn search_on_lowered_fragments_takes_them_as_given() {
    let frags = v(&["Alpha beta", "alpha beta"]);
    let (best, survivors) = best_pair_in(&frags, &v(&["alpha", "Alpha"]), &v(&["beta"]));
    assert_eq!(best, Some(("Alpha".to_string(), "beta".to_string(), 1)));
    assert_eq!(survivors, 2);
}

#[test]
fn collapse_refuses_without_both_spaces() {
    let frags = v(&["a b"]);
    assert_eq!(collapse_search(&frags, &v(&[]), &v(&[])), (Err(CollapseRefusal::NoPrimitiveMaterial), 0));
    assert_eq!(collapse_search(&frags, &v(&["a"]), &v(&[])), (Err(CollapseRefusal::OneSided), 0));
    assert_eq!(collapse_search(&frags, &v(&[]), &v(&["b"])), (Err(CollapseRefusal::OneSided), 0));
    assert_eq!(collapse_search(&frags, &v(&["a"]), &v(&["c"])), (Err(CollapseRefusal::NoCopresence), 0));
    assert_eq!(CollapseRefusal::OneSided.reason(), "hapësirë e njëanshme: XiYi kërkon të dyja");
}

#[test]
fn collapse_proposes_the_best_pair() {
    let frags = v(&["A b", "a b c"]);
    let (r, survivors) = collapse_search(&frags, &v(&["a"]), &v(&["b", "c"]));
    assert_eq!(r, Ok(("a".to_string(), "b".to_string(), 2)));
    assert_eq!(survivors, 2);
}
