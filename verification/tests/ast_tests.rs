use ricp::ast::{Ast, FloatBits, Node, NodeKind, OpType};

#[test]
fn test_benchmark_memory_footprint() {
    let mut ast = Ast::new();
    let x = ast.add_variable("x");
    let y = ast.add_variable("y");
    let x_sqr = ast.add_unary(OpType::Sqr, x);
    let y_sqr = ast.add_unary(OpType::Sqr, y);
    let _root = ast.add_binary(OpType::Add, x_sqr, y_sqr);

    let node_count = ast.nodes.len();
    let single_node_size = std::mem::size_of::<Node>();
    let total_ast_bytes = node_count * single_node_size;

    println!("Total AST Nodes          : {} nodes", node_count);
    println!("Size per Node struct     : {} bytes", single_node_size);
    println!(
        "Total AST Memory Size    : {} bytes ({:.2} KB)",
        total_ast_bytes,
        (total_ast_bytes as f64) / 1024.0
    );

    assert_eq!(node_count, 5);
}

#[test]
fn builders_hand_out_consecutive_ids() {
    let mut ast = Ast::new();
    assert_eq!(ast.nodes.len(), 0);
    let c = ast.add_constant(2.5f64.to_bits());
    let x = ast.add_variable("x");
    let s = ast.add_unary(OpType::Sin, x);
    let m = ast.add_binary(OpType::Mul, c, s);
    assert_eq!((c, x, s, m), (0, 1, 2, 3));
    assert_eq!(ast.nodes.len(), 4);
}

#[test]
fn builders_store_the_given_nodes() {
    let mut ast = Ast::new();
    let c = ast.add_constant((-0.75f64).to_bits());
    let x = ast.add_variable("theta");
    let d = ast.add_binary(OpType::Div, x, c);
    let e = ast.add_unary(OpType::Exp, d);

    match &ast.nodes[c].kind {
        NodeKind::Constant(c) => assert_eq!(f64::from_bits(c.bits), -0.75),
        other => panic!("unexpected node {:?}", other),
    }
    assert_eq!(ast.nodes[x].kind, NodeKind::Variable("theta".to_string()));
    assert_eq!(ast.nodes[d].kind, NodeKind::Binary { op: OpType::Div, left: x, right: c });
    assert_eq!(ast.nodes[e].kind, NodeKind::Unary { op: OpType::Exp, child: d });
}

#[test]
fn adding_a_node_leaves_earlier_nodes_unchanged() {
    let mut ast = Ast::new();
    let x = ast.add_variable("x");
    let y = ast.add_variable("y");
    let before = ast.nodes.clone();
    ast.add_binary(OpType::Sub, x, y);
    assert_eq!(ast.nodes.len(), before.len() + 1);
    for i in 0..before.len() {
        assert_eq!(ast.nodes[i].kind, before[i].kind);
    }
}

#[test]
fn constants_compare_as_floats() {
    let bits = |v: f64| FloatBits { bits: v.to_bits() };
    assert!(bits(0.0) == bits(-0.0));
    assert!(bits(1.5) == bits(1.5));
    assert!(bits(1.5) != bits(2.5));
    assert!(bits(f64::NAN) != bits(f64::NAN));
    assert!(bits(f64::INFINITY) == bits(f64::INFINITY));
    assert!(bits(f64::INFINITY) != bits(f64::NEG_INFINITY));

    let mut a = Ast::new();
    let mut b = Ast::new();
    a.add_constant(0.0f64.to_bits());
    b.add_constant((-0.0f64).to_bits());
    assert_eq!(a.nodes[0].kind, b.nodes[0].kind);
    a.add_constant(f64::NAN.to_bits());
    assert_ne!(a.nodes[1].kind, a.nodes[1].kind.clone());
}
