//! A worked transform: `typeof x === 'y'` becomes `'y' === typeof x`.

use crate::arena::Nodes;
use crate::ast::{
    AstKind, AstType, BinaryOperator, Expression, ExpressionParent, NodeId, Statement,
    UnaryOperator,
};
use crate::tree::{
    at, entry_linked, exchange_of, exchanged_at, has_type, lemma_exchange_of_transitive,
    lemma_swapped_is_exchange, lemma_swapped_reaches_the_same, lemma_swapped_well_formed,
    occupant, reachable, swapped, well_formed,
};
use crate::traverse::transform;
use crate::visit::Visit;
use vstd::prelude::*;

verus! {

/// Whether the right operand of the binary expression `binary` is a string
/// literal.
pub open spec fn right_is_string_literal(nodes: Seq<AstKind<'_>>, binary: NodeId) -> bool {
    at(nodes, at(nodes, binary)->Binary_0.right) matches AstKind::Expr(
        Expression::StringLiteral(_),
    )
}

/// Whether the transform looks into the unary expression `unary`: it is a
/// `typeof`, and it is an operand of a binary expression.
pub open spec fn looks_into(nodes: Seq<AstKind<'_>>, unary: NodeId) -> bool {
    &&& at(nodes, unary) matches AstKind::Unary(node)
    &&& node.operator == UnaryOperator::Typeof
    &&& (node.parent is BinaryExpressionLeft || node.parent is BinaryExpressionRight)
}

/// Whether visiting the unary expression `unary` exchanges the operands of its
/// parent: it is a `typeof`, it is the left operand of an equality, and the
/// right operand is a string literal.
pub open spec fn moves_to_the_right(nodes: Seq<AstKind<'_>>, unary: NodeId) -> bool {
    &&& at(nodes, unary) matches AstKind::Unary(node)
    &&& node.operator == UnaryOperator::Typeof
    &&& node.parent matches ExpressionParent::BinaryExpressionLeft(binary)
    &&& at(nodes, binary) matches AstKind::Binary(parent)
    &&& (parent.operator == BinaryOperator::Equality || parent.operator
        == BinaryOperator::StrictEquality)
    &&& right_is_string_literal(nodes, binary)
}

/// The arena after the transform has visited the entry `id`, of whatever kind.
///
/// - A statement or an expression entry hands on to the entry it names.
/// - A binary expression has its operands visited in the order in which the
///   node named them on entry, whatever the visit of the first does to the
///   node.
/// - A unary expression that the transform [`looks_into`] has its parent's
///   operands exchanged when it [`moves_to_the_right`], and then its argument
///   visited. Any other unary expression is left alone, with all below it.
/// - Identifiers and string literals are left alone.
pub open spec fn typeof_visit<'a>(nodes: Seq<AstKind<'a>>, id: NodeId) -> Seq<AstKind<'a>>
    decreases id.0,
{
    if id.0 >= nodes.len() {
        nodes
    } else {
        match at(nodes, id) {
            AstKind::Stmt(Statement::ExpressionStatement(expression)) => if expression.0 < id.0 {
                typeof_visit(nodes, expression)
            } else {
                nodes
            },
            AstKind::Expr(expression) => if expression.target().0 < id.0 {
                typeof_visit(nodes, expression.target())
            } else {
                nodes
            },
            AstKind::Binary(node) => if node.left.0 < id.0 && node.right.0 < id.0 {
                typeof_visit(typeof_visit(nodes, node.left), node.right)
            } else {
                nodes
            },
            AstKind::Unary(node) => if looks_into(nodes, id) && node.argument.0 < id.0 {
                typeof_visit(
                    if moves_to_the_right(nodes, id) {
                        swapped(nodes, node.parent.node().unwrap())
                    } else {
                        nodes
                    },
                    node.argument,
                )
            } else {
                nodes
            },
            _ => nodes,
        }
    }
}

/// Transformer for `typeof x === 'y'` to `'y' === typeof x`.
pub struct TransformTypeof;

impl TransformTypeof {
    /// Runs the transform on the tree under the statement `id`.
    pub fn build<'a>(&mut self, id: NodeId, nodes: &mut Nodes<'a>)
        requires
            well_formed(old(nodes)@),
            has_type(old(nodes)@, id, AstType::Stmt),
        ensures
            final(nodes)@ == typeof_visit(old(nodes)@, id),
            well_formed(final(nodes)@),
            exchange_of(old(nodes)@, final(nodes)@),
    {
        proof {
            lemma_typeof_visit_exchanges(nodes@, id);
        }
        transform(self, id, nodes);
    }
}

impl<'a> Visit<'a> for TransformTypeof {
    open spec fn visited_statement(
        &self,
        nodes: Seq<AstKind<'a>>,
        id: NodeId,
        end: &Self,
        result: Seq<AstKind<'a>>,
    ) -> bool {
        result == typeof_visit(nodes, id)
    }

    open spec fn visited_expression(
        &self,
        nodes: Seq<AstKind<'a>>,
        id: NodeId,
        end: &Self,
        result: Seq<AstKind<'a>>,
    ) -> bool {
        result == typeof_visit(nodes, id)
    }

    open spec fn visited_identifier_reference(
        &self,
        nodes: Seq<AstKind<'a>>,
        id: NodeId,
        end: &Self,
        result: Seq<AstKind<'a>>,
    ) -> bool {
        result == typeof_visit(nodes, id)
    }

    open spec fn visited_string_literal(
        &self,
        nodes: Seq<AstKind<'a>>,
        id: NodeId,
        end: &Self,
        result: Seq<AstKind<'a>>,
    ) -> bool {
        result == typeof_visit(nodes, id)
    }

    open spec fn visited_binary_expression(
        &self,
        nodes: Seq<AstKind<'a>>,
        id: NodeId,
        end: &Self,
        result: Seq<AstKind<'a>>,
    ) -> bool {
        result == typeof_visit(nodes, id)
    }

    open spec fn visited_unary_expression(
        &self,
        nodes: Seq<AstKind<'a>>,
        id: NodeId,
        end: &Self,
        result: Seq<AstKind<'a>>,
    ) -> bool {
        result == typeof_visit(nodes, id)
    }

    fn visit_statement(&mut self, id: NodeId, nodes: &mut Nodes<'a>)
    {
        proof {
            assert(entry_linked(nodes@, id));
        }
        self.walk_statement(id, nodes)
    }

    fn walk_statement(&mut self, id: NodeId, nodes: &mut Nodes<'a>)
    {
        let expression = nodes.statement_expression(id);
        self.visit_expression(expression, nodes)
    }

    fn visit_expression(&mut self, id: NodeId, nodes: &mut Nodes<'a>)
        decreases id.0, 1nat,
    {
        proof {
            assert(entry_linked(nodes@, id));
        }
        self.walk_expression(id, nodes)
    }

    fn walk_expression(&mut self, id: NodeId, nodes: &mut Nodes<'a>)
        decreases id.0, 0nat,
    {
        match nodes.expression(id) {
            Expression::Identifier(it) => {
                self.visit_identifier_reference(it, nodes);
            },
            Expression::StringLiteral(it) => {
                self.visit_string_literal(it, nodes);
            },
            Expression::BinaryExpression(it) => {
                self.visit_binary_expression(it, nodes);
            },
            Expression::UnaryExpression(it) => {
                self.visit_unary_expression(it, nodes);
            },
        }
    }

    fn visit_identifier_reference(&mut self, id: NodeId, nodes: &mut Nodes<'a>)
    {
    }

    fn visit_string_literal(&mut self, id: NodeId, nodes: &mut Nodes<'a>)
    {
    }

    fn visit_binary_expression(&mut self, id: NodeId, nodes: &mut Nodes<'a>)
        decreases id.0, 1nat,
    {
        proof {
            assert(entry_linked(nodes@, id));
        }
        self.walk_binary_expression(id, nodes)
    }

    fn walk_binary_expression(&mut self, id: NodeId, nodes: &mut Nodes<'a>)
        decreases id.0, 0nat,
    {
        let (left, right) = nodes.operands(id);
        self.visit_expression(left, nodes);
        let ghost middle = *self;
        let ghost between = nodes@;
        self.visit_expression(right, nodes);
        proof {
            assert(old(self).visited_expression(old(nodes)@, left, &middle, between));
            assert(middle.visited_expression(between, right, final(self), final(nodes)@));
        }
    }

    fn visit_unary_expression(&mut self, id: NodeId, nodes: &mut Nodes<'a>)
        decreases id.0, 1nat,
    {
        let node = *nodes.get_node(id).as_unary_unchecked();
        if node.operator != UnaryOperator::Typeof {
            return ;
        }
        proof {
            assert(entry_linked(nodes@, id));
        }
        let (parent, on_the_left) = match node.parent {
            ExpressionParent::BinaryExpressionLeft(parent) => (parent, true),
            ExpressionParent::BinaryExpressionRight(parent) => (parent, false),
            _ => {
                return ;
            },
        };
        let binary = match nodes.get_node(parent).as_binary() {
            Some(binary) => *binary,
            None => {
                return ;
            },
        };
        if !matches!(binary.operator, BinaryOperator::Equality | BinaryOperator::StrictEquality) {
            return ;
        }
        proof {
            assert(entry_linked(nodes@, parent));
        }
        if on_the_left && matches!(
            nodes.get_node(binary.right).as_expr(),
            Some(Expression::StringLiteral(_))
        ) {
            proof {
                lemma_swapped_well_formed(nodes@, parent);
            }
            nodes.swap_operands(parent);
        }
        self.walk_unary_expression(id, nodes);
    }

    fn walk_unary_expression(&mut self, id: NodeId, nodes: &mut Nodes<'a>)
        decreases id.0, 0nat,
    {
        let argument = nodes.argument(id);
        self.visit_expression(argument, nodes)
    }
}

/// Whether a visit of the entry `id` would find nothing to exchange: no unary
/// expression that the visit reaches [`moves_to_the_right`].
pub open spec fn settled(nodes: Seq<AstKind<'_>>, id: NodeId) -> bool
    decreases id.0,
{
    if id.0 >= nodes.len() {
        true
    } else {
        match at(nodes, id) {
            AstKind::Stmt(Statement::ExpressionStatement(expression)) => expression.0 < id.0
                ==> settled(nodes, expression),
            AstKind::Expr(expression) => expression.target().0 < id.0 ==> settled(
                nodes,
                expression.target(),
            ),
            AstKind::Binary(node) => node.left.0 < id.0 && node.right.0 < id.0 ==> settled(
                nodes,
                node.left,
            ) && settled(nodes, node.right),
            AstKind::Unary(node) => {
                &&& !moves_to_the_right(nodes, id)
                &&& looks_into(nodes, id) && node.argument.0 < id.0 ==> settled(
                    nodes,
                    node.argument,
                )
            },
            _ => true,
        }
    }
}

/// The transform only ever exchanges operands: it keeps the tree consistent,
/// adds and removes nothing, and leaves the contents of every node as they
/// were.
pub proof fn lemma_typeof_visit_exchanges(nodes: Seq<AstKind<'_>>, id: NodeId)
    requires
        well_formed(nodes),
    ensures
        well_formed(typeof_visit(nodes, id)),
        exchange_of(nodes, typeof_visit(nodes, id)),
    decreases id.0,
{
    assert(exchange_of(nodes, nodes)) by {
        assert forall|other: NodeId| other.0 < nodes.len() implies #[trigger] exchanged_at(
            nodes,
            nodes,
            other,
        ) by {}
    }
    if id.0 < nodes.len() {
        assert(entry_linked(nodes, id));
        match at(nodes, id) {
            AstKind::Stmt(Statement::ExpressionStatement(expression)) => {
                lemma_typeof_visit_exchanges(nodes, expression);
            },
            AstKind::Expr(expression) => {
                lemma_typeof_visit_exchanges(nodes, expression.target());
            },
            AstKind::Binary(node) => {
                let between = typeof_visit(nodes, node.left);
                lemma_typeof_visit_exchanges(nodes, node.left);
                lemma_typeof_visit_exchanges(between, node.right);
                lemma_exchange_of_transitive(nodes, between, typeof_visit(between, node.right));
            },
            AstKind::Unary(node) => {
                if looks_into(nodes, id) {
                    if moves_to_the_right(nodes, id) {
                        let binary = node.parent.node().unwrap();
                        let turned = swapped(nodes, binary);
                        lemma_swapped_well_formed(nodes, binary);
                        lemma_swapped_is_exchange(nodes, binary);
                        lemma_typeof_visit_exchanges(turned, node.argument);
                        lemma_exchange_of_transitive(
                            nodes,
                            turned,
                            typeof_visit(turned, node.argument),
                        );
                    } else {
                        lemma_typeof_visit_exchanges(nodes, node.argument);
                    }
                }
            },
            _ => {},
        }
    }
}

/// The transform moves nodes but loses and gains none: from every entry, the
/// same entries can be reached afterwards as before.
pub proof fn lemma_typeof_visit_reaches_the_same(nodes: Seq<AstKind<'_>>, id: NodeId, from: NodeId)
    requires
        well_formed(nodes),
    ensures
        reachable(typeof_visit(nodes, id), from) == reachable(nodes, from),
    decreases id.0,
{
    if id.0 < nodes.len() {
        assert(entry_linked(nodes, id));
        match at(nodes, id) {
            AstKind::Stmt(Statement::ExpressionStatement(expression)) => {
                lemma_typeof_visit_reaches_the_same(nodes, expression, from);
            },
            AstKind::Expr(expression) => {
                lemma_typeof_visit_reaches_the_same(nodes, expression.target(), from);
            },
            AstKind::Binary(node) => {
                let between = typeof_visit(nodes, node.left);
                lemma_typeof_visit_exchanges(nodes, node.left);
                lemma_typeof_visit_reaches_the_same(nodes, node.left, from);
                lemma_typeof_visit_reaches_the_same(between, node.right, from);
            },
            AstKind::Unary(node) => {
                if looks_into(nodes, id) {
                    if moves_to_the_right(nodes, id) {
                        let binary = node.parent.node().unwrap();
                        let turned = swapped(nodes, binary);
                        lemma_swapped_well_formed(nodes, binary);
                        lemma_swapped_reaches_the_same(nodes, binary, from);
                        lemma_typeof_visit_reaches_the_same(turned, node.argument, from);
                    } else {
                        lemma_typeof_visit_reaches_the_same(nodes, node.argument, from);
                    }
                }
            },
            _ => {},
        }
    }
}

/// Where nothing is to be exchanged, the transform changes nothing.
pub proof fn lemma_settled_is_left_alone(nodes: Seq<AstKind<'_>>, id: NodeId)
    requires
        settled(nodes, id),
    ensures
        typeof_visit(nodes, id) == nodes,
    decreases id.0,
{
    if id.0 < nodes.len() {
        match at(nodes, id) {
            AstKind::Stmt(Statement::ExpressionStatement(expression)) => {
                if expression.0 < id.0 {
                    lemma_settled_is_left_alone(nodes, expression);
                }
            },
            AstKind::Expr(expression) => {
                if expression.target().0 < id.0 {
                    lemma_settled_is_left_alone(nodes, expression.target());
                }
            },
            AstKind::Binary(node) => {
                if node.left.0 < id.0 && node.right.0 < id.0 {
                    lemma_settled_is_left_alone(nodes, node.left);
                    lemma_settled_is_left_alone(nodes, node.right);
                }
            },
            AstKind::Unary(node) => {
                if looks_into(nodes, id) && node.argument.0 < id.0 {
                    lemma_settled_is_left_alone(nodes, node.argument);
                }
            },
            _ => {},
        }
    }
}

/// Exchanging the operands around one unary expression changes nothing for
/// another that would stay where it is.
proof fn lemma_swap_leaves_the_unmoved(nodes: Seq<AstKind<'_>>, moved: NodeId, unary: NodeId)
    requires
        well_formed(nodes),
        moved.0 < nodes.len(),
        moves_to_the_right(nodes, moved),
        unary.0 < nodes.len(),
        at(nodes, unary) is Unary,
        !moves_to_the_right(nodes, unary),
    ensures
        at(swapped(nodes, at(nodes, moved)->Unary_0.parent.node().unwrap()), unary) == at(
            nodes,
            unary,
        ),
        !moves_to_the_right(
            swapped(nodes, at(nodes, moved)->Unary_0.parent.node().unwrap()),
            unary,
        ),
{
    let binary = at(nodes, moved)->Unary_0.parent.node().unwrap();
    let turned = swapped(nodes, binary);
    let node = at(nodes, binary)->Binary_0;
    let left = at(nodes, node.left)->Expr_0.target();
    let right = at(nodes, node.right)->Expr_0.target();
    assert(entry_linked(nodes, moved));
    assert(entry_linked(nodes, binary));
    assert(entry_linked(nodes, node.left));
    assert(entry_linked(nodes, node.right));
    assert(entry_linked(nodes, unary));
    assert(left == moved);
    assert(at(nodes, right) is Str);
    assert(at(turned, unary) == at(nodes, unary));
    let tag = at(nodes, unary)->Unary_0.parent;
    if tag is BinaryExpressionLeft {
        let other = tag->BinaryExpressionLeft_0;
        assert(other != binary);
        assert(entry_linked(nodes, other));
        assert(at(turned, other) == at(nodes, other));
        let field = at(nodes, other)->Binary_0.right;
        assert(at(turned, field) == at(nodes, field));
    }
}

/// The transform leaves alone every unary expression that would stay where it
/// is, and afterwards it would still stay there.
proof fn lemma_typeof_visit_leaves_the_unmoved(nodes: Seq<AstKind<'_>>, id: NodeId, unary: NodeId)
    requires
        well_formed(nodes),
        unary.0 < nodes.len(),
        at(nodes, unary) is Unary,
        !moves_to_the_right(nodes, unary),
    ensures
        at(typeof_visit(nodes, id), unary) == at(nodes, unary),
        !moves_to_the_right(typeof_visit(nodes, id), unary),
    decreases id.0,
{
    if id.0 < nodes.len() {
        assert(entry_linked(nodes, id));
        match at(nodes, id) {
            AstKind::Stmt(Statement::ExpressionStatement(expression)) => {
                lemma_typeof_visit_leaves_the_unmoved(nodes, expression, unary);
            },
            AstKind::Expr(expression) => {
                lemma_typeof_visit_leaves_the_unmoved(nodes, expression.target(), unary);
            },
            AstKind::Binary(node) => {
                let between = typeof_visit(nodes, node.left);
                lemma_typeof_visit_exchanges(nodes, node.left);
                lemma_typeof_visit_leaves_the_unmoved(nodes, node.left, unary);
                lemma_typeof_visit_leaves_the_unmoved(between, node.right, unary);
            },
            AstKind::Unary(node) => {
                if looks_into(nodes, id) {
                    if moves_to_the_right(nodes, id) {
                        let binary = node.parent.node().unwrap();
                        let turned = swapped(nodes, binary);
                        lemma_swapped_well_formed(nodes, binary);
                        lemma_swap_leaves_the_unmoved(nodes, id, unary);
                        lemma_typeof_visit_leaves_the_unmoved(turned, node.argument, unary);
                    } else {
                        lemma_typeof_visit_leaves_the_unmoved(nodes, node.argument, unary);
                    }
                }
            },
            _ => {},
        }
    }
}

/// Exchanging the operands around a unary expression does not unsettle a part
/// of the arena that was settled.
proof fn lemma_swap_keeps_settled(nodes: Seq<AstKind<'_>>, moved: NodeId, id: NodeId)
    requires
        well_formed(nodes),
        moved.0 < nodes.len(),
        moves_to_the_right(nodes, moved),
        settled(nodes, id),
    ensures
        settled(swapped(nodes, at(nodes, moved)->Unary_0.parent.node().unwrap()), id),
    decreases id.0,
{
    let binary = at(nodes, moved)->Unary_0.parent.node().unwrap();
    let turned = swapped(nodes, binary);
    let parent = at(nodes, binary)->Binary_0;
    let left = at(nodes, parent.left)->Expr_0.target();
    let right = at(nodes, parent.right)->Expr_0.target();
    assert(entry_linked(nodes, moved));
    assert(entry_linked(nodes, binary));
    assert(entry_linked(nodes, parent.left));
    assert(entry_linked(nodes, parent.right));
    assert(left == moved);
    assert(at(nodes, right) is Str);
    if id.0 < nodes.len() {
        assert(entry_linked(nodes, id));
        match at(nodes, id) {
            AstKind::Stmt(Statement::ExpressionStatement(expression)) => {
                assert(at(turned, id) == at(nodes, id));
                lemma_swap_keeps_settled(nodes, moved, expression);
            },
            AstKind::Expr(expression) => {
                assert(at(turned, id) == at(nodes, id));
                lemma_swap_keeps_settled(nodes, moved, expression.target());
            },
            AstKind::Binary(node) => {
                if id == binary {
                    assert(settled(nodes, parent.left));
                    assert(settled(nodes, moved));
                    assert(false);
                } else {
                    assert(at(turned, id) == at(nodes, id));
                    lemma_swap_keeps_settled(nodes, moved, node.left);
                    lemma_swap_keeps_settled(nodes, moved, node.right);
                }
            },
            AstKind::Unary(node) => {
                lemma_swap_leaves_the_unmoved(nodes, moved, id);
                if looks_into(nodes, id) {
                    lemma_swap_keeps_settled(nodes, moved, node.argument);
                }
            },
            _ => {
                assert(at(turned, id).type_of() == at(nodes, id).type_of()) by {
                    lemma_swapped_well_formed(nodes, binary);
                }
            },
        }
    }
}

/// A visit of one entry does not unsettle a part of the arena that was
/// settled.
proof fn lemma_typeof_visit_keeps_settled(nodes: Seq<AstKind<'_>>, visited: NodeId, id: NodeId)
    requires
        well_formed(nodes),
        settled(nodes, id),
    ensures
        settled(typeof_visit(nodes, visited), id),
    decreases visited.0,
{
    if visited.0 < nodes.len() {
        assert(entry_linked(nodes, visited));
        match at(nodes, visited) {
            AstKind::Stmt(Statement::ExpressionStatement(expression)) => {
                lemma_typeof_visit_keeps_settled(nodes, expression, id);
            },
            AstKind::Expr(expression) => {
                lemma_typeof_visit_keeps_settled(nodes, expression.target(), id);
            },
            AstKind::Binary(node) => {
                let between = typeof_visit(nodes, node.left);
                lemma_typeof_visit_exchanges(nodes, node.left);
                lemma_typeof_visit_keeps_settled(nodes, node.left, id);
                lemma_typeof_visit_keeps_settled(between, node.right, id);
            },
            AstKind::Unary(node) => {
                if looks_into(nodes, visited) {
                    if moves_to_the_right(nodes, visited) {
                        let binary = node.parent.node().unwrap();
                        let turned = swapped(nodes, binary);
                        lemma_swapped_well_formed(nodes, binary);
                        lemma_swap_keeps_settled(nodes, visited, id);
                        lemma_typeof_visit_keeps_settled(turned, node.argument, id);
                    } else {
                        lemma_typeof_visit_keeps_settled(nodes, node.argument, id);
                    }
                }
            },
            _ => {},
        }
    }
}

/// After the transform has visited an entry, nothing is left to exchange in
/// what it visited.
pub proof fn lemma_typeof_visit_settles(nodes: Seq<AstKind<'_>>, id: NodeId)
    requires
        well_formed(nodes),
    ensures
        settled(typeof_visit(nodes, id), id),
    decreases id.0,
{
    let done = typeof_visit(nodes, id);
    if id.0 < nodes.len() {
        assert(entry_linked(nodes, id));
        lemma_typeof_visit_exchanges(nodes, id);
        assert(exchanged_at(nodes, done, id));
        match at(nodes, id) {
            AstKind::Stmt(Statement::ExpressionStatement(expression)) => {
                lemma_typeof_visit_settles(nodes, expression);
            },
            AstKind::Expr(expression) => {
                lemma_typeof_visit_settles(nodes, expression.target());
            },
            AstKind::Binary(node) => {
                let between = typeof_visit(nodes, node.left);
                lemma_typeof_visit_exchanges(nodes, node.left);
                lemma_typeof_visit_settles(nodes, node.left);
                lemma_typeof_visit_keeps_settled(between, node.right, node.left);
                lemma_typeof_visit_settles(between, node.right);
            },
            AstKind::Unary(node) => {
                if looks_into(nodes, id) {
                    if moves_to_the_right(nodes, id) {
                        let binary = node.parent.node().unwrap();
                        let turned = swapped(nodes, binary);
                        lemma_swapped_well_formed(nodes, binary);
                        assert(entry_linked(nodes, binary));
                        assert(entry_linked(nodes, at(nodes, binary)->Binary_0.left));
                        assert(entry_linked(nodes, at(nodes, binary)->Binary_0.right));
                        assert(at(turned, id) == at(nodes, id).with_parent(
                            ExpressionParent::BinaryExpressionRight(binary),
                        ));
                        lemma_typeof_visit_leaves_the_unmoved(turned, node.argument, id);
                        lemma_typeof_visit_settles(turned, node.argument);
                    } else {
                        lemma_typeof_visit_leaves_the_unmoved(nodes, node.argument, id);
                        lemma_typeof_visit_settles(nodes, node.argument);
                    }
                }
            },
            _ => {},
        }
    }
}

/// A second pass is idle: running the transform again on what it produced
/// changes nothing, so the operands never swing back and forth.
pub proof fn lemma_second_pass_changes_nothing(nodes: Seq<AstKind<'_>>, id: NodeId)
    requires
        well_formed(nodes),
    ensures
        typeof_visit(typeof_visit(nodes, id), id) == typeof_visit(nodes, id),
{
    lemma_typeof_visit_settles(nodes, id);
    lemma_settled_is_left_alone(typeof_visit(nodes, id), id);
}

/// Whether the binary expression `binary` is one that the transform would
/// turn around: the node in its left slot [`moves_to_the_right`].
pub open spec fn turns(nodes: Seq<AstKind<'_>>, binary: NodeId) -> bool {
    occupant(nodes, ExpressionParent::BinaryExpressionLeft(binary)) matches Some(unary)
        && unary.0 < nodes.len() && moves_to_the_right(nodes, unary)
}

/// Exchanging the operands around a unary expression takes its parent out of
/// the binary expressions that would be turned around, and brings no other in.
proof fn lemma_swap_turns_no_other(nodes: Seq<AstKind<'_>>, moved: NodeId, other: NodeId)
    requires
        well_formed(nodes),
        moved.0 < nodes.len(),
        moves_to_the_right(nodes, moved),
        turns(swapped(nodes, at(nodes, moved)->Unary_0.parent.node().unwrap()), other),
    ensures
        turns(nodes, other),
        other != at(nodes, moved)->Unary_0.parent.node().unwrap(),
        turns(nodes, at(nodes, moved)->Unary_0.parent.node().unwrap()),
{
    let binary = at(nodes, moved)->Unary_0.parent.node().unwrap();
    let turned = swapped(nodes, binary);
    let parent = at(nodes, binary)->Binary_0;
    let left = at(nodes, parent.left)->Expr_0.target();
    let right = at(nodes, parent.right)->Expr_0.target();
    assert(entry_linked(nodes, moved));
    assert(entry_linked(nodes, binary));
    assert(entry_linked(nodes, parent.left));
    assert(entry_linked(nodes, parent.right));
    assert(left == moved);
    assert(at(nodes, right) is Str);
    lemma_swapped_well_formed(nodes, binary);
    let unary = occupant(turned, ExpressionParent::BinaryExpressionLeft(other)).unwrap();
    if other == binary {
        assert(unary == right);
        assert(false);
    } else {
        assert(entry_linked(turned, other));
        assert(at(turned, other) is Binary);
        assert(entry_linked(nodes, other));
        assert(at(turned, other) == at(nodes, other));
        let field = at(nodes, other)->Binary_0.left;
        assert(at(turned, field) == at(nodes, field));
        assert(occupant(nodes, ExpressionParent::BinaryExpressionLeft(other)) == Some(unary));
        assert(at(nodes, unary) is Unary);
        if !moves_to_the_right(nodes, unary) {
            lemma_swap_leaves_the_unmoved(nodes, moved, unary);
        }
    }
}

/// The transform never makes a binary expression one to be turned around that
/// was not one before.
proof fn lemma_typeof_visit_turns_no_other(nodes: Seq<AstKind<'_>>, id: NodeId, other: NodeId)
    requires
        well_formed(nodes),
        turns(typeof_visit(nodes, id), other),
    ensures
        turns(nodes, other),
    decreases id.0,
{
    if id.0 < nodes.len() {
        assert(entry_linked(nodes, id));
        match at(nodes, id) {
            AstKind::Stmt(Statement::ExpressionStatement(expression)) => {
                lemma_typeof_visit_turns_no_other(nodes, expression, other);
            },
            AstKind::Expr(expression) => {
                lemma_typeof_visit_turns_no_other(nodes, expression.target(), other);
            },
            AstKind::Binary(node) => {
                let between = typeof_visit(nodes, node.left);
                lemma_typeof_visit_exchanges(nodes, node.left);
                lemma_typeof_visit_turns_no_other(between, node.right, other);
                lemma_typeof_visit_turns_no_other(nodes, node.left, other);
            },
            AstKind::Unary(node) => {
                if looks_into(nodes, id) {
                    if moves_to_the_right(nodes, id) {
                        let binary = node.parent.node().unwrap();
                        let turned = swapped(nodes, binary);
                        lemma_swapped_well_formed(nodes, binary);
                        lemma_typeof_visit_turns_no_other(turned, node.argument, other);
                        lemma_swap_turns_no_other(nodes, id, other);
                    } else {
                        lemma_typeof_visit_turns_no_other(nodes, node.argument, other);
                    }
                }
            },
            _ => {},
        }
    }
}

/// Where something is to be exchanged, the transform exchanges it: some
/// binary expression that was to be turned around no longer is afterwards.
proof fn lemma_typeof_visit_turns_one(nodes: Seq<AstKind<'_>>, id: NodeId) -> (binary: NodeId)
    requires
        well_formed(nodes),
        !settled(nodes, id),
    ensures
        turns(nodes, binary),
        !turns(typeof_visit(nodes, id), binary),
    decreases id.0,
{
    assert(entry_linked(nodes, id));
    match at(nodes, id) {
        AstKind::Stmt(Statement::ExpressionStatement(expression)) => {
            lemma_typeof_visit_turns_one(nodes, expression)
        },
        AstKind::Expr(expression) => { lemma_typeof_visit_turns_one(nodes, expression.target()) },
        AstKind::Binary(node) => {
            let between = typeof_visit(nodes, node.left);
            lemma_typeof_visit_exchanges(nodes, node.left);
            if !settled(nodes, node.left) {
                let binary = lemma_typeof_visit_turns_one(nodes, node.left);
                if turns(typeof_visit(between, node.right), binary) {
                    lemma_typeof_visit_turns_no_other(between, node.right, binary);
                }
                binary
            } else {
                lemma_settled_is_left_alone(nodes, node.left);
                lemma_typeof_visit_turns_one(nodes, node.right)
            }
        },
        AstKind::Unary(node) => {
            if moves_to_the_right(nodes, id) {
                let binary = node.parent.node().unwrap();
                let turned = swapped(nodes, binary);
                lemma_swapped_well_formed(nodes, binary);
                assert(entry_linked(nodes, binary));
                assert(entry_linked(nodes, at(nodes, binary)->Binary_0.left));
                assert(entry_linked(nodes, at(nodes, binary)->Binary_0.right));
                assert(turns(nodes, binary));
                if turns(typeof_visit(turned, node.argument), binary) {
                    lemma_typeof_visit_turns_no_other(turned, node.argument, binary);
                    lemma_swap_turns_no_other(nodes, id, binary);
                }
                binary
            } else {
                lemma_typeof_visit_turns_one(nodes, node.argument)
            }
        },
        _ => { id },
    }
}

/// A pass changes the tree exactly when there is something to exchange in
/// what it visits.
pub proof fn lemma_first_pass_changes_the_unsettled(nodes: Seq<AstKind<'_>>, id: NodeId)
    requires
        well_formed(nodes),
    ensures
        typeof_visit(nodes, id) == nodes <==> settled(nodes, id),
{
    if settled(nodes, id) {
        lemma_settled_is_left_alone(nodes, id);
    } else {
        let binary = lemma_typeof_visit_turns_one(nodes, id);
    }
}

} // verus!
