use sysy_compiler::ir::arr::{get_dim, normalize_array, InitElem};
use sysy_compiler::ir::meta::VariableManager;
use sysy_compiler::parse::ast::{Expr, Number};

fn e(v: i32) -> InitElem {
    InitElem::Expr(Expr::new_num(Number::new(v)))
}

fn list(items: Vec<InitElem>) -> InitElem {
    InitElem::List(items)
}

fn show(x: &InitElem) -> String {
    match x {
        InitElem::Expr(e) => e.const_eval_i32(&VariableManager::new()).unwrap().to_string(),
        InitElem::List(items) => format!("{{{}}}", items.iter().map(show).collect::<Vec<_>>().join(", ")),
        InitElem::Zero(d) => format!("0{:?}", d),
    }
}

fn shown(xs: &[InitElem]) -> String {
    xs.iter().map(show).collect::<Vec<_>>().join(", ")
}

#[test]
fn a_flat_list_fills_rows_in_order() {
    // int a[2][2] = {1, 2, 3};
    let r = normalize_array(vec![e(1), e(2), e(3)], &[2, 2]);
    assert_eq!(shown(&r), "{1, 2}, {3, 0[]}");
}

#[test]
fn an_empty_initialiser_is_all_zeros() {
    let r = normalize_array(vec![], &[3]);
    assert_eq!(shown(&r), "0[], 0[], 0[]");
    let r = normalize_array(vec![], &[2, 4]);
    assert_eq!(shown(&r), "0[4], 0[4]");
}

#[test]
fn braces_start_a_new_row() {
    // int a[2][2] = {{1}, 2};
    let r = normalize_array(vec![list(vec![e(1)]), e(2)], &[2, 2]);
    assert_eq!(shown(&r), "{1, 0[]}, {2, 0[]}");
    // int a[2][2] = {{}, {1, 2}};
    let r = normalize_array(vec![list(vec![]), list(vec![e(1), e(2)])], &[2, 2]);
    assert_eq!(shown(&r), "{0[], 0[]}, {1, 2}");
}

#[test]
fn three_dimensions_are_filled_from_the_inside() {
    // int a[2][2][2] = {{{1}, {2, 3}}, 4, 5, 6, 7};
    let first = list(vec![list(vec![e(1)]), list(vec![e(2), e(3)])]);
    let r = normalize_array(vec![first, e(4), e(5), e(6), e(7)], &[2, 2, 2]);
    assert_eq!(shown(&r), "{{1, 0[]}, {2, 3}}, {{4, 5}, {6, 7}}");
    // int a[2][2][2] = {{{1}, {2, 3}}};
    let first = list(vec![list(vec![e(1)]), list(vec![e(2), e(3)])]);
    let r = normalize_array(vec![first], &[2, 2, 2]);
    assert_eq!(shown(&r), "{{1, 0[]}, {2, 3}}, 0[2, 2]");
}

#[test]
fn depth_of_elements() {
    assert_eq!(get_dim(&e(1), 2), 0);
    assert_eq!(get_dim(&list(vec![e(1), list(vec![e(2)])]), 2), 2);
    assert_eq!(get_dim(&list(vec![]), 0), 1);
    assert_eq!(get_dim(&InitElem::Zero(vec![2, 3]), 0), 2);
}

#[test]
fn a_normalized_array_has_its_first_dimension() {
    let r = normalize_array(vec![e(1), e(2), e(3), e(4), e(5)], &[3, 2]);
    assert_eq!(r.len(), 3);
    assert_eq!(shown(&r), "{1, 2}, {3, 4}, {5, 0[]}");
}

fn well_shaped(x: &InitElem, dims: &[usize]) -> bool {
    match (x, dims.split_first()) {
        (InitElem::Expr(_), None) => true,
        (InitElem::Zero(d), _) => d.as_slice() == dims,
        (InitElem::List(items), Some((first, rest))) => items.len() == *first && items.iter().all(|i| well_shaped(i, rest)),
        _ => false,
    }
}

#[test]
fn every_sub_list_has_its_dimension_length() {
    // int a[3][2][2] = {1, 2, 3, 4, 5};
    let r = normalize_array(vec![e(1), e(2), e(3), e(4), e(5)], &[3, 2, 2]);
    assert_eq!(r.len(), 3);
    assert!(r.iter().all(|x| well_shaped(x, &[2, 2])));
    // int a[2][2][2] = {{{1}, {2, 3}}, 4, 5, 6, 7};
    let first = list(vec![list(vec![e(1)]), list(vec![e(2), e(3)])]);
    let r = normalize_array(vec![first, e(4), e(5), e(6), e(7)], &[2, 2, 2]);
    assert_eq!(r.len(), 2);
    assert!(r.iter().all(|x| well_shaped(x, &[2, 2])));
}
