use ricp::ast::{Ast, OpType};
use ricp::solver::{
    explores_right_half, merge_results, search_step, SearchStep, SensitivityMap, SolverResult,
    PARALLEL_DEPTH_LIMIT,
};

fn weight_of(m: &SensitivityMap, name: &str) -> Option<u128> {
    m.entries().iter().find(|(k, _)| k == name).map(|(_, w)| *w)
}

#[test]
fn sensitivity_adds_operator_weights_to_variables() {
    // x^2 + y: x is a variable node (1) under Sqr (3), y is a variable node (1).
    let mut ast = Ast::new();
    let x = ast.add_variable("x");
    let y = ast.add_variable("y");
    let x_sqr = ast.add_unary(OpType::Sqr, x);
    ast.add_binary(OpType::Add, x_sqr, y);

    let m = SensitivityMap::from_ast(&ast);
    assert_eq!(m.entries().len(), 2);
    assert_eq!(weight_of(&m, "x"), Some(4));
    assert_eq!(weight_of(&m, "y"), Some(1));
    assert_eq!(m.occurrence("x"), 4);
    assert_eq!(m.occurrence("y"), 1);
}

#[test]
fn sensitivity_weights_of_each_operator() {
    let mut ast = Ast::new();
    let a = ast.add_variable("a");
    let b = ast.add_variable("b");
    let c = ast.add_variable("c");
    let d = ast.add_variable("d");
    let e = ast.add_variable("e");
    ast.add_unary(OpType::Exp, a); // 10
    ast.add_unary(OpType::Sqr, b); // 3
    ast.add_unary(OpType::Sin, c); // 2
    ast.add_unary(OpType::Cos, d); // 2
    ast.add_unary(OpType::Sqrt, e); // 1

    let m = SensitivityMap::from_ast(&ast);
    assert_eq!(m.occurrence("a"), 11);
    assert_eq!(m.occurrence("b"), 4);
    assert_eq!(m.occurrence("c"), 3);
    assert_eq!(m.occurrence("d"), 3);
    assert_eq!(m.occurrence("e"), 2);
}

#[test]
fn sensitivity_accumulates_over_repeated_names() {
    // Two variable nodes named "x", each under an Exp, plus a Sin over the first.
    let mut ast = Ast::new();
    let x1 = ast.add_variable("x");
    let x2 = ast.add_variable("x");
    ast.add_unary(OpType::Exp, x1);
    ast.add_unary(OpType::Exp, x2);
    ast.add_unary(OpType::Sin, x1);

    let m = SensitivityMap::from_ast(&ast);
    assert_eq!(m.entries().len(), 1);
    assert_eq!(m.occurrence("x"), 1 + 1 + 10 + 10 + 2);
}

#[test]
fn sensitivity_ignores_operators_over_non_variables() {
    // exp(x + y): the Exp applies to a binary node, so only the variable nodes count.
    let mut ast = Ast::new();
    let x = ast.add_variable("x");
    let y = ast.add_variable("y");
    let s = ast.add_binary(OpType::Add, x, y);
    let sq = ast.add_unary(OpType::Sqr, s);
    ast.add_unary(OpType::Exp, sq);
    let c = ast.add_constant(3.0f64.to_bits());
    ast.add_unary(OpType::Exp, c);

    let m = SensitivityMap::from_ast(&ast);
    assert_eq!(m.entries().len(), 2);
    assert_eq!(m.occurrence("x"), 1);
    assert_eq!(m.occurrence("y"), 1);
}

#[test]
fn occurrence_of_an_unknown_variable_is_one() {
    let mut ast = Ast::new();
    let x = ast.add_variable("x");
    ast.add_unary(OpType::Exp, x);
    let m = SensitivityMap::from_ast(&ast);
    assert_eq!(m.occurrence("z"), 1);
    assert_eq!(m.occurrence(""), 1);

    let empty = SensitivityMap::from_ast(&Ast::new());
    assert!(empty.entries().is_empty());
    assert_eq!(empty.occurrence("x"), 1);
}

#[test]
fn weighted_names_are_exactly_the_variables() {
    let mut ast = Ast::new();
    let p = ast.add_variable("p");
    let q = ast.add_variable("q");
    let p_sin = ast.add_unary(OpType::Sin, p);
    let prod = ast.add_binary(OpType::Mul, p_sin, q);
    ast.add_unary(OpType::Sqrt, prod);
    let m = SensitivityMap::from_ast(&ast);
    let mut names: Vec<&str> = m.entries().iter().map(|(k, _)| k.as_str()).collect();
    names.sort();
    assert_eq!(names, vec!["p", "q"]);
    assert!(m.entries().iter().all(|(_, w)| *w > 0));
}

#[test]
fn search_step_reports_unsat_when_contraction_fails() {
    assert_eq!(search_step(false, true, 0), SearchStep::Unsat);
    assert_eq!(search_step(false, false, 40), SearchStep::Unsat);
}

#[test]
fn search_step_reports_sat_for_small_boxes() {
    assert_eq!(search_step(true, true, 0), SearchStep::Sat);
    assert_eq!(search_step(true, true, 100), SearchStep::Sat);
}

#[test]
fn search_step_switches_to_sequential_beyond_depth_limit() {
    assert_eq!(PARALLEL_DEPTH_LIMIT, 12);
    assert_eq!(search_step(true, false, 0), SearchStep::SplitParallel);
    assert_eq!(search_step(true, false, 12), SearchStep::SplitParallel);
    assert_eq!(search_step(true, false, 13), SearchStep::SplitSequential);
}

#[test]
fn merge_prefers_left_answer() {
    assert_eq!(merge_results(SolverResult::Sat(1), SolverResult::Sat(2)), SolverResult::Sat(1));
    assert_eq!(merge_results(SolverResult::Sat(1), SolverResult::Unsat), SolverResult::Sat(1));
    assert_eq!(merge_results(SolverResult::Unsat, SolverResult::Sat(2)), SolverResult::Sat(2));
    assert_eq!(
        merge_results::<i32>(SolverResult::Unsat, SolverResult::Unsat),
        SolverResult::Unsat
    );
}

#[test]
fn sequential_search_explores_right_only_after_unsat() {
    assert!(explores_right_half::<i32>(&SolverResult::Unsat));
    assert!(!explores_right_half(&SolverResult::Sat(7)));
}

#[test]
fn sequential_and_parallel_search_agree() {
    let cases = vec![
        (SolverResult::Sat(1), SolverResult::Sat(2)),
        (SolverResult::Sat(1), SolverResult::Unsat),
        (SolverResult::Unsat, SolverResult::Sat(2)),
        (SolverResult::Unsat, SolverResult::Unsat),
    ];
    for (l, r) in cases {
        let sequential = if explores_right_half(&l) { r.clone() } else { l.clone() };
        assert_eq!(sequential, merge_results(l, r));
    }
}
