use traversable_ast::arena::Nodes;
use traversable_ast::ast::{
    AstType, BinaryOperator, Expression, ExpressionParent, NodeId, UnaryOperator,
};
use traversable_ast::parser::parse;
use traversable_ast::print::Printer;

#[test]
fn built_tree_equals_the_parsed_one() {
    let bump = bumpalo::Bump::new();
    let mut nodes = Nodes::with_capacity_in(5, &bump);
    let foo = nodes.push_identifier("foo");
    let unary = nodes.push_unary(UnaryOperator::Typeof, foo);
    let object = nodes.push_string_literal("object");
    let binary = nodes.push_binary(unary, BinaryOperator::StrictEquality, object);
    let stmt = nodes.push_statement(binary);
    assert_eq!(nodes.first_unlinked(), None);

    let other = bumpalo::Bump::new();
    let (parsed, parsed_stmt) = parse(&other);
    assert_eq!(stmt, parsed_stmt);
    assert_eq!(nodes.len(), parsed.len());
    for index in 0..nodes.len() {
        let id = NodeId::new(index);
        assert_eq!(
            format!("{:?}", nodes.get_node(id)),
            format!("{:?}", parsed.get_node(id))
        );
    }
    assert_eq!(Printer::print(stmt, &mut nodes), "typeof foo === 'object'");
}

#[test]
fn every_step_leaves_a_consistent_arena() {
    let bump = bumpalo::Bump::new();
    let mut nodes = Nodes::with_capacity_in(0, &bump);
    assert_eq!(nodes.first_unlinked(), None);
    let a = nodes.push_identifier("a");
    assert_eq!(a, NodeId::new(1));
    assert_eq!(nodes.expression(a), Expression::Identifier(NodeId::new(0)));
    assert_eq!(nodes.first_unlinked(), None);
    let b = nodes.push_string_literal("b");
    assert_eq!(b, NodeId::new(3));
    assert_eq!(nodes.expression(b), Expression::StringLiteral(NodeId::new(2)));
    assert_eq!(nodes.first_unlinked(), None);
    let not_a = nodes.push_unary(UnaryOperator::LogicalNot, a);
    assert_eq!(not_a, NodeId::new(5));
    assert_eq!(nodes.first_unlinked(), None);
    let both = nodes.push_binary(b, BinaryOperator::Equality, not_a);
    assert_eq!(both, NodeId::new(7));
    assert_eq!(nodes.operands(NodeId::new(6)), (b, not_a));
    assert_eq!(nodes.first_unlinked(), None);
    let stmt = nodes.push_statement(both);
    assert_eq!(stmt, NodeId::new(8));
    assert!(nodes.holds(stmt, AstType::Stmt));
    assert_eq!(nodes.first_unlinked(), None);
    assert_eq!(Printer::print(stmt, &mut nodes), "'b' == !a");
}

#[test]
fn children_learn_their_slot() {
    let bump = bumpalo::Bump::new();
    let mut nodes = Nodes::with_capacity_in(0, &bump);
    let a = nodes.push_identifier("a");
    let b = nodes.push_identifier("b");
    assert!(nodes.is_detached(a));
    assert!(nodes.is_detached(b));
    assert!(!nodes.is_detached(NodeId::new(0)));
    assert!(!nodes.is_detached(NodeId::new(9)));
    let binary = nodes.push_binary(a, BinaryOperator::Equality, b);
    assert!(!nodes.is_detached(a));
    assert!(!nodes.is_detached(b));
    assert!(nodes.is_detached(binary));
    assert_eq!(
        nodes.get_node(NodeId::new(0)).parent(),
        Some(ExpressionParent::BinaryExpressionLeft(NodeId::new(4)))
    );
    assert_eq!(
        nodes.get_node(NodeId::new(2)).parent(),
        Some(ExpressionParent::BinaryExpressionRight(NodeId::new(4)))
    );
    assert_eq!(nodes.get_node(NodeId::new(4)).parent(), Some(ExpressionParent::Root));
    let stmt = nodes.push_statement(binary);
    assert!(!nodes.is_detached(binary));
    assert_eq!(
        nodes.get_node(NodeId::new(4)).parent(),
        Some(ExpressionParent::ExpressionStatement(stmt))
    );
}
