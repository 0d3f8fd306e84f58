use traversable_ast::arena::Nodes;
use traversable_ast::ast::{
    AsAstRef, BinaryExpression, BinaryOperator, Expression, ExpressionParent,
    IdentifierReference, NodeId, Statement, StringLiteral, UnaryExpression, UnaryOperator,
};
use traversable_ast::parser::parse;
use traversable_ast::print::Printer;
use traversable_ast::transform_typeof::TransformTypeof;
use traversable_ast::traverse::transform;
use traversable_ast::visit::Visit;

/// `typeof foo <operator> <right>`, where the right operand is a string
/// literal or an identifier.
fn typeof_foo<'a>(
    bump: &'a bumpalo::Bump,
    operator: BinaryOperator,
    right: &'a str,
    right_is_string: bool,
) -> (Nodes<'a>, NodeId) {
    let mut nodes = Nodes::with_capacity_in(9, bump);
    let ident = nodes.push(
        IdentifierReference { name: "foo", parent: ExpressionParent::Root }.as_ast_ref(),
    );
    let ident_expr = nodes.push(Expression::Identifier(ident).as_ast_ref());
    let unary = nodes.push(
        UnaryExpression {
            operator: UnaryOperator::Typeof,
            argument: ident_expr,
            parent: ExpressionParent::Root,
        }
        .as_ast_ref(),
    );
    let unary_expr = nodes.push(Expression::UnaryExpression(unary).as_ast_ref());
    nodes.get_node_mut(ident).set_parent(ExpressionParent::UnaryExpression(unary));
    let (other, other_expr) = if right_is_string {
        let other = nodes.push(
            StringLiteral { value: right, parent: ExpressionParent::Root }.as_ast_ref(),
        );
        (other, nodes.push(Expression::StringLiteral(other).as_ast_ref()))
    } else {
        let other = nodes.push(
            IdentifierReference { name: right, parent: ExpressionParent::Root }.as_ast_ref(),
        );
        (other, nodes.push(Expression::Identifier(other).as_ast_ref()))
    };
    let binary = nodes.push(
        BinaryExpression {
            left: unary_expr,
            operator,
            right: other_expr,
            parent: ExpressionParent::Root,
        }
        .as_ast_ref(),
    );
    nodes.get_node_mut(unary).set_parent(ExpressionParent::BinaryExpressionLeft(binary));
    nodes.get_node_mut(other).set_parent(ExpressionParent::BinaryExpressionRight(binary));
    let binary_expr = nodes.push(Expression::BinaryExpression(binary).as_ast_ref());
    let stmt = nodes.push(Statement::ExpressionStatement(binary_expr).as_ast_ref());
    nodes.get_node_mut(binary).set_parent(ExpressionParent::ExpressionStatement(stmt));
    (nodes, stmt)
}

#[test]
fn strict_equality_with_string_is_turned_around() {
    let bump = bumpalo::Bump::new();
    let (mut nodes, stmt) = parse(&bump);
    assert_eq!(Printer::print(stmt, &mut nodes), "typeof foo === 'object'");
    TransformTypeof.build(stmt, &mut nodes);
    assert_eq!(Printer::print(stmt, &mut nodes), "'object' === typeof foo");
}

#[test]
fn equality_with_string_is_turned_around() {
    let bump = bumpalo::Bump::new();
    let (mut nodes, stmt) = typeof_foo(&bump, BinaryOperator::Equality, "object", true);
    assert_eq!(Printer::print(stmt, &mut nodes), "typeof foo == 'object'");
    TransformTypeof.build(stmt, &mut nodes);
    assert_eq!(Printer::print(stmt, &mut nodes), "'object' == typeof foo");
}

#[test]
fn comparison_with_identifier_is_left_alone() {
    let bump = bumpalo::Bump::new();
    let (mut nodes, stmt) = typeof_foo(&bump, BinaryOperator::StrictEquality, "bar", false);
    assert_eq!(Printer::print(stmt, &mut nodes), "typeof foo === bar");
    TransformTypeof.build(stmt, &mut nodes);
    assert_eq!(Printer::print(stmt, &mut nodes), "typeof foo === bar");
}

#[test]
fn second_pass_changes_nothing() {
    let bump = bumpalo::Bump::new();
    let (mut nodes, stmt) = parse(&bump);
    let before = Printer::print(stmt, &mut nodes);
    TransformTypeof.build(stmt, &mut nodes);
    let once = Printer::print(stmt, &mut nodes);
    assert_ne!(before, once);
    TransformTypeof.build(stmt, &mut nodes);
    let twice = Printer::print(stmt, &mut nodes);
    assert_eq!(once, twice);
    assert_eq!(twice, "'object' === typeof foo");
}

#[test]
fn driver_runs_the_transformer() {
    let bump = bumpalo::Bump::new();
    let (mut nodes, stmt) = parse(&bump);
    let mut transformer = TransformTypeof;
    transform(&mut transformer, stmt, &mut nodes);
    assert_eq!(Printer::print(stmt, &mut nodes), "'object' === typeof foo");
}

#[derive(Default)]
struct KindCounter {
    statements: usize,
    binaries: usize,
    unaries: usize,
    strings: usize,
    identifiers: usize,
}

impl<'a> Visit<'a> for KindCounter {
    fn visit_statement(&mut self, id: NodeId, nodes: &mut Nodes<'a>) {
        self.statements += 1;
        self.walk_statement(id, nodes);
    }

    fn walk_statement(&mut self, id: NodeId, nodes: &mut Nodes<'a>) {
        let expression = nodes.statement_expression(id);
        self.visit_expression(expression, nodes);
    }

    fn visit_expression(&mut self, id: NodeId, nodes: &mut Nodes<'a>) {
        self.walk_expression(id, nodes);
    }

    fn walk_expression(&mut self, id: NodeId, nodes: &mut Nodes<'a>) {
        match nodes.expression(id) {
            Expression::Identifier(it) => self.visit_identifier_reference(it, nodes),
            Expression::StringLiteral(it) => self.visit_string_literal(it, nodes),
            Expression::BinaryExpression(it) => self.visit_binary_expression(it, nodes),
            Expression::UnaryExpression(it) => self.visit_unary_expression(it, nodes),
        }
    }

    fn visit_identifier_reference(&mut self, _id: NodeId, _nodes: &mut Nodes<'a>) {
        self.identifiers += 1;
    }

    fn visit_string_literal(&mut self, _id: NodeId, _nodes: &mut Nodes<'a>) {
        self.strings += 1;
    }

    fn visit_binary_expression(&mut self, id: NodeId, nodes: &mut Nodes<'a>) {
        self.binaries += 1;
        self.walk_binary_expression(id, nodes);
    }

    fn walk_binary_expression(&mut self, id: NodeId, nodes: &mut Nodes<'a>) {
        let (left, right) = nodes.operands(id);
        self.visit_expression(left, nodes);
        self.visit_expression(right, nodes);
    }

    fn visit_unary_expression(&mut self, id: NodeId, nodes: &mut Nodes<'a>) {
        self.unaries += 1;
        self.walk_unary_expression(id, nodes);
    }

    fn walk_unary_expression(&mut self, id: NodeId, nodes: &mut Nodes<'a>) {
        let argument = nodes.argument(id);
        self.visit_expression(argument, nodes);
    }
}

#[test]
fn every_node_is_visited_once() {
    let bump = bumpalo::Bump::new();
    let (mut nodes, stmt) = parse(&bump);
    let mut counter = KindCounter::default();
    counter.visit_statement(stmt, &mut nodes);
    assert_eq!(counter.statements, 1);
    assert_eq!(counter.binaries, 1);
    assert_eq!(counter.unaries, 1);
    assert_eq!(counter.strings, 1);
    assert_eq!(counter.identifiers, 1);
}

#[test]
fn unary_operators_are_written_as_prefixes() {
    let cases = [
        (UnaryOperator::UnaryNegation, "-x"),
        (UnaryOperator::UnaryPlus, "+x"),
        (UnaryOperator::LogicalNot, "!x"),
        (UnaryOperator::BitwiseNot, "~x"),
        (UnaryOperator::Typeof, "typeof x"),
        (UnaryOperator::Void, "void x"),
        (UnaryOperator::Delete, "delete x"),
    ];
    for (operator, text) in cases {
        let bump = bumpalo::Bump::new();
        let mut nodes = Nodes::with_capacity_in(5, &bump);
        let x = nodes.push_identifier("x");
        let unary = nodes.push_unary(operator, x);
        let stmt = nodes.push_statement(unary);
        assert_eq!(nodes.first_unlinked(), None);
        assert_eq!(Printer::print(stmt, &mut nodes), text);
    }
}

#[test]
fn string_literals_are_quoted_and_operators_spaced() {
    let bump = bumpalo::Bump::new();
    let mut nodes = Nodes::with_capacity_in(0, &bump);
    let left = nodes.push_string_literal("");
    let right = nodes.push_string_literal("a b");
    let binary = nodes.push_binary(left, BinaryOperator::Equality, right);
    let stmt = nodes.push_statement(binary);
    assert_eq!(nodes.first_unlinked(), None);
    assert_eq!(Printer::print(stmt, &mut nodes), "'' == 'a b'");
    assert_eq!(nodes.len(), 7);
}

#[test]
fn typeof_on_the_right_stays_there() {
    let bump = bumpalo::Bump::new();
    let mut nodes = Nodes::with_capacity_in(9, &bump);
    let left = nodes.push_string_literal("object");
    let foo = nodes.push_identifier("foo");
    let right = nodes.push_unary(UnaryOperator::Typeof, foo);
    let binary = nodes.push_binary(left, BinaryOperator::StrictEquality, right);
    let stmt = nodes.push_statement(binary);
    assert_eq!(nodes.first_unlinked(), None);
    TransformTypeof.build(stmt, &mut nodes);
    assert_eq!(Printer::print(stmt, &mut nodes), "'object' === typeof foo");
    assert_eq!(nodes.first_unlinked(), None);
}

#[test]
fn typeof_against_typeof_is_left_alone() {
    let bump = bumpalo::Bump::new();
    let mut nodes = Nodes::with_capacity_in(9, &bump);
    let a = nodes.push_identifier("a");
    let left = nodes.push_unary(UnaryOperator::Typeof, a);
    let b = nodes.push_identifier("b");
    let right = nodes.push_unary(UnaryOperator::Typeof, b);
    let binary = nodes.push_binary(left, BinaryOperator::Equality, right);
    let stmt = nodes.push_statement(binary);
    TransformTypeof.build(stmt, &mut nodes);
    assert_eq!(Printer::print(stmt, &mut nodes), "typeof a == typeof b");
}

#[test]
fn typeof_as_a_whole_statement_is_left_alone() {
    let bump = bumpalo::Bump::new();
    let mut nodes = Nodes::with_capacity_in(9, &bump);
    let a = nodes.push_identifier("a");
    let unary = nodes.push_unary(UnaryOperator::Typeof, a);
    let stmt = nodes.push_statement(unary);
    TransformTypeof.build(stmt, &mut nodes);
    assert_eq!(Printer::print(stmt, &mut nodes), "typeof a");
}

#[test]
fn nothing_below_another_unary_operator_is_touched() {
    let bump = bumpalo::Bump::new();
    let mut nodes = Nodes::with_capacity_in(9, &bump);
    let a = nodes.push_identifier("a");
    let left = nodes.push_unary(UnaryOperator::Typeof, a);
    let right = nodes.push_string_literal("b");
    let binary = nodes.push_binary(left, BinaryOperator::StrictEquality, right);
    let not = nodes.push_unary(UnaryOperator::LogicalNot, binary);
    let stmt = nodes.push_statement(not);
    assert_eq!(nodes.first_unlinked(), None);
    TransformTypeof.build(stmt, &mut nodes);
    assert_eq!(Printer::print(stmt, &mut nodes), "!typeof a === 'b'");
}

#[test]
fn nested_comparisons_are_both_turned_around() {
    let bump = bumpalo::Bump::new();
    let mut nodes = Nodes::with_capacity_in(9, &bump);
    let a = nodes.push_identifier("a");
    let inner_left = nodes.push_unary(UnaryOperator::Typeof, a);
    let inner_right = nodes.push_string_literal("b");
    let inner = nodes.push_binary(inner_left, BinaryOperator::Equality, inner_right);
    let outer_left = nodes.push_unary(UnaryOperator::Typeof, inner);
    let outer_right = nodes.push_string_literal("c");
    let outer = nodes.push_binary(outer_left, BinaryOperator::StrictEquality, outer_right);
    let stmt = nodes.push_statement(outer);
    assert_eq!(nodes.first_unlinked(), None);
    assert_eq!(Printer::print(stmt, &mut nodes), "typeof typeof a == 'b' === 'c'");
    let entries = nodes.len();
    TransformTypeof.build(stmt, &mut nodes);
    assert_eq!(Printer::print(stmt, &mut nodes), "'c' === typeof 'b' == typeof a");
    assert_eq!(nodes.len(), entries);
    assert_eq!(nodes.first_unlinked(), None);
    TransformTypeof.build(stmt, &mut nodes);
    assert_eq!(Printer::print(stmt, &mut nodes), "'c' === typeof 'b' == typeof a");
}

#[test]
fn counting_under_the_driver_sees_the_same_nodes() {
    let bump = bumpalo::Bump::new();
    let (mut nodes, stmt) = parse(&bump);
    TransformTypeof.build(stmt, &mut nodes);
    let mut counter = KindCounter::default();
    transform(&mut counter, stmt, &mut nodes);
    assert_eq!(
        (
            counter.statements,
            counter.binaries,
            counter.unaries,
            counter.strings,
            counter.identifiers
        ),
        (1, 1, 1, 1, 1)
    );
}
