use traversable_ast::arena::{Nodes, MAX_ENTRIES, MAX_INITIAL_CAPACITY};
use traversable_ast::ast::{
    AsAstRef, AstKind, AstRef, AstType, BinaryExpression, BinaryOperator, Expression,
    ExpressionParent, IdentifierReference, NodeId, Statement, StringLiteral, UnaryExpression,
    UnaryOperator,
};

#[test]
fn handle_keeps_its_index() {
    assert_eq!(NodeId::new(41).as_index(), 41);
    assert_eq!(NodeId::new(0), NodeId::default());
    assert_ne!(NodeId::new(1), NodeId::new(2));
}

#[test]
fn narrowing_follows_the_kind() {
    let bump = bumpalo::Bump::new();
    let mut nodes = Nodes::with_capacity_in(5, &bump);
    let ident = IdentifierReference { name: "foo", parent: ExpressionParent::Root };
    let id = nodes.push(ident.as_ast_ref());
    assert_eq!(id.as_index(), 0);
    assert_eq!(nodes.len(), 1);
    let entry = nodes.get_node(id);
    assert_eq!(entry.ast_type(), AstType::Ident);
    assert!(entry.is(AstType::Ident));
    assert!(!entry.is(AstType::Str));
    assert!(entry.as_ident().is_some());
    assert!(entry.as_binary().is_none());
    assert_eq!(entry.as_ident_unchecked().name, "foo");
    nodes.get_node_mut(id).as_ident_mut_unchecked().parent =
        ExpressionParent::UnaryExpression(NodeId::new(7));
    assert_eq!(
        nodes.get_node(id).as_ident().unwrap().parent,
        ExpressionParent::UnaryExpression(NodeId::new(7))
    );
}

#[test]
fn each_kind_narrows_only_to_itself() {
    let stmt = Statement::ExpressionStatement(NodeId::new(3)).as_ast_ref();
    let expr = Expression::UnaryExpression(NodeId::new(2)).as_ast_ref();
    let ident = IdentifierReference { name: "a", parent: ExpressionParent::Root }.as_ast_ref();
    let lit = StringLiteral { value: "b", parent: ExpressionParent::Root }.as_ast_ref();
    let binary = BinaryExpression {
        left: NodeId::new(1),
        operator: BinaryOperator::Equality,
        right: NodeId::new(2),
        parent: ExpressionParent::Root,
    }
    .as_ast_ref();
    let unary = UnaryExpression {
        operator: UnaryOperator::Void,
        argument: NodeId::new(1),
        parent: ExpressionParent::Root,
    }
    .as_ast_ref();

    let all = [&stmt, &expr, &ident, &lit, &binary, &unary];
    let kinds = [
        AstType::Stmt,
        AstType::Expr,
        AstType::Ident,
        AstType::Str,
        AstType::Binary,
        AstType::Unary,
    ];
    for (position, entry) in all.iter().enumerate() {
        assert_eq!(entry.ast_type(), kinds[position]);
        assert_eq!(entry.as_stmt().is_some(), position == 0);
        assert_eq!(entry.as_expr().is_some(), position == 1);
        assert_eq!(entry.as_ident().is_some(), position == 2);
        assert_eq!(entry.as_str().is_some(), position == 3);
        assert_eq!(entry.as_binary().is_some(), position == 4);
        assert_eq!(entry.as_unary().is_some(), position == 5);
    }
    assert_eq!(*stmt.as_stmt_unchecked(), Statement::ExpressionStatement(NodeId::new(3)));
    assert_eq!(*expr.as_expr_unchecked(), Expression::UnaryExpression(NodeId::new(2)));
    assert_eq!(lit.as_str_unchecked().value, "b");
    assert_eq!(binary.as_binary_unchecked().right, NodeId::new(2));
    assert_eq!(unary.as_unary_unchecked().operator, UnaryOperator::Void);
}

#[test]
fn mutable_narrowing_writes_through() {
    let mut stmt = Statement::ExpressionStatement(NodeId::new(3)).as_ast_ref();
    assert!(stmt.as_expr_mut().is_none());
    assert!(stmt.as_ident_mut().is_none());
    assert!(stmt.as_str_mut().is_none());
    assert!(stmt.as_binary_mut().is_none());
    assert!(stmt.as_unary_mut().is_none());
    *stmt.as_stmt_mut().unwrap() = Statement::ExpressionStatement(NodeId::new(4));
    assert_eq!(*stmt.as_stmt_unchecked(), Statement::ExpressionStatement(NodeId::new(4)));
    *stmt.as_stmt_mut_unchecked() = Statement::ExpressionStatement(NodeId::new(5));
    assert_eq!(*stmt.as_stmt_unchecked(), Statement::ExpressionStatement(NodeId::new(5)));

    let mut expr = Expression::Identifier(NodeId::new(0)).as_ast_ref();
    assert!(expr.as_stmt_mut().is_none());
    *expr.as_expr_mut().unwrap() = Expression::StringLiteral(NodeId::new(1));
    assert_eq!(*expr.as_expr_unchecked(), Expression::StringLiteral(NodeId::new(1)));
    *expr.as_expr_mut_unchecked() = Expression::BinaryExpression(NodeId::new(2));
    assert_eq!(expr.as_expr_unchecked().target(), NodeId::new(2));

    let mut ident = IdentifierReference { name: "a", parent: ExpressionParent::Root }.as_ast_ref();
    ident.as_ident_mut().unwrap().name = "b";
    assert_eq!(ident.as_ident_unchecked().name, "b");
    ident.as_ident_mut_unchecked().name = "c";
    assert_eq!(ident.as_ident_unchecked().name, "c");

    let mut lit = StringLiteral { value: "x", parent: ExpressionParent::Root }.as_ast_ref();
    lit.as_str_mut().unwrap().value = "y";
    assert_eq!(lit.as_str_unchecked().value, "y");
    lit.as_str_mut_unchecked().value = "z";
    assert_eq!(lit.as_str_unchecked().value, "z");

    let mut binary = BinaryExpression {
        left: NodeId::new(1),
        operator: BinaryOperator::Equality,
        right: NodeId::new(2),
        parent: ExpressionParent::Root,
    }
    .as_ast_ref();
    binary.as_binary_mut().unwrap().operator = BinaryOperator::StrictEquality;
    assert_eq!(binary.as_binary_unchecked().operator, BinaryOperator::StrictEquality);
    binary.as_binary_mut_unchecked().left = NodeId::new(9);
    assert_eq!(binary.as_binary_unchecked().left, NodeId::new(9));
    assert_eq!(binary.as_binary_unchecked().right, NodeId::new(2));

    let mut unary = UnaryExpression {
        operator: UnaryOperator::Void,
        argument: NodeId::new(1),
        parent: ExpressionParent::Root,
    }
    .as_ast_ref();
    unary.as_unary_mut().unwrap().operator = UnaryOperator::Delete;
    assert_eq!(unary.as_unary_unchecked().operator, UnaryOperator::Delete);
    unary.as_unary_mut_unchecked().argument = NodeId::new(6);
    assert_eq!(unary.as_unary_unchecked().argument, NodeId::new(6));
}

#[test]
fn parent_tag_is_read_and_written() {
    let mut unary = UnaryExpression {
        operator: UnaryOperator::Typeof,
        argument: NodeId::new(1),
        parent: ExpressionParent::Root,
    }
    .as_ast_ref();
    assert_eq!(unary.parent(), Some(ExpressionParent::Root));
    unary.set_parent(ExpressionParent::BinaryExpressionLeft(NodeId::new(5)));
    assert_eq!(unary.parent(), Some(ExpressionParent::BinaryExpressionLeft(NodeId::new(5))));
    assert_eq!(unary.as_unary_unchecked().argument, NodeId::new(1));
    assert_eq!(Expression::Identifier(NodeId::new(0)).as_ast_ref().parent(), None);
    assert_eq!(Statement::ExpressionStatement(NodeId::new(0)).as_ast_ref().parent(), None);
}

#[test]
fn kind_converts_to_its_type() {
    let kind = AstKind::Expr(Expression::Identifier(NodeId::new(0)));
    assert_eq!(kind.ast_type(), AstType::Expr);
    assert_eq!(AstType::from(&kind), AstType::Expr);
    let kind = AstKind::Str(StringLiteral { value: "s", parent: ExpressionParent::Root });
    assert_eq!(AstType::from(&kind), AstType::Str);
}

#[test]
fn expression_names_its_payload() {
    assert_eq!(Expression::StringLiteral(NodeId::new(4)).target(), NodeId::new(4));
    assert_eq!(Expression::Identifier(NodeId::new(5)).target(), NodeId::new(5));
    assert_eq!(Expression::BinaryExpression(NodeId::new(6)).target(), NodeId::new(6));
    assert_eq!(Expression::UnaryExpression(NodeId::new(7)).target(), NodeId::new(7));
}

#[test]
fn entry_is_as_small_as_the_limits_take_it_to_be() {
    assert!(std::mem::size_of::<AstRef<'static>>() <= 64);
    assert!(std::mem::size_of::<AstRef<'static>>() > 0);
    assert_eq!(MAX_ENTRIES, usize::MAX / 256);
    assert_eq!(MAX_INITIAL_CAPACITY, 1024);
    let bump = bumpalo::Bump::new();
    let nodes = Nodes::with_capacity_in(MAX_INITIAL_CAPACITY, &bump);
    assert_eq!(nodes.len(), 0);
}
