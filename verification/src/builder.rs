//! Construction of trees, bottom up.
//!
//! Each step allocates the entries of one node after those of its children
//! and, in the same step, writes the children's parent tags. An arena that is
//! only ever extended by these steps is well formed after every one of them.

use crate::arena::{Nodes, MAX_ENTRIES};
use crate::ast::{
    AsAstRef, AstKind, AstType, BinaryExpression, BinaryOperator, Expression, ExpressionParent,
    IdentifierReference, NodeId, Statement, StringLiteral, UnaryExpression, UnaryOperator,
};
use crate::tree::{at, entry_linked, has_type, well_formed};
use vstd::prelude::*;

verus! {

/// The node that the expression entry `expression` names.
pub open spec fn under(nodes: Seq<AstKind<'_>>, expression: NodeId) -> NodeId {
    at(nodes, expression)->Expr_0.target()
}

/// Whether `expression` is an expression entry whose node sits in no slot
/// yet, so that a new parent may take it as a child.
pub open spec fn detached(nodes: Seq<AstKind<'_>>, expression: NodeId) -> bool {
    &&& has_type(nodes, expression, AstType::Expr)
    &&& at(nodes, under(nodes, expression)).parent() == Some(
        ExpressionParent::Root,
    )
}

/// Whether every expression that was detached in `before` is still detached
/// in `after`, but for those over the nodes `first` and `second`.
pub open spec fn keeps_detached(
    before: Seq<AstKind<'_>>,
    after: Seq<AstKind<'_>>,
    first: NodeId,
    second: NodeId,
) -> bool {
    forall|other: NodeId|
        detached(before, other) && under(before, other) != first && under(before, other)
            != second ==> #[trigger] detached(after, other)
}

/// The arena after the node under `expression` has been told that it sits in
/// `slot`.
pub open spec fn attached<'a>(
    nodes: Seq<AstKind<'a>>,
    expression: NodeId,
    slot: ExpressionParent,
) -> Seq<AstKind<'a>> {
    let node = under(nodes, expression);
    nodes.update(node.0 as int, at(nodes, node).with_parent(slot))
}

/// The arena after a leaf `node` and the expression entry `expression` that
/// names it have been appended.
pub open spec fn with_leaf<'a>(
    nodes: Seq<AstKind<'a>>,
    node: AstKind<'a>,
    expression: Expression,
) -> Seq<AstKind<'a>> {
    nodes.push(node).push(AstKind::Expr(expression))
}

/// The arena after a unary expression over `argument` has been appended.
pub open spec fn with_unary<'a>(
    nodes: Seq<AstKind<'a>>,
    operator: UnaryOperator,
    argument: NodeId,
) -> Seq<AstKind<'a>> {
    let id = NodeId(nodes.len() as usize);
    attached(nodes, argument, ExpressionParent::UnaryExpression(id)).push(
        AstKind::Unary(UnaryExpression { operator, argument, parent: ExpressionParent::Root }),
    ).push(AstKind::Expr(Expression::UnaryExpression(id)))
}

/// The arena after a binary expression over `left` and `right` has been
/// appended.
pub open spec fn with_binary<'a>(
    nodes: Seq<AstKind<'a>>,
    left: NodeId,
    operator: BinaryOperator,
    right: NodeId,
) -> Seq<AstKind<'a>> {
    let id = NodeId(nodes.len() as usize);
    attached(
        attached(nodes, left, ExpressionParent::BinaryExpressionLeft(id)),
        right,
        ExpressionParent::BinaryExpressionRight(id),
    ).push(
        AstKind::Binary(
            BinaryExpression { left, operator, right, parent: ExpressionParent::Root },
        ),
    ).push(AstKind::Expr(Expression::BinaryExpression(id)))
}

/// The arena after a statement over `expression` has been appended.
pub open spec fn with_statement<'a>(nodes: Seq<AstKind<'a>>, expression: NodeId) -> Seq<
    AstKind<'a>,
> {
    let id = NodeId(nodes.len() as usize);
    attached(nodes, expression, ExpressionParent::ExpressionStatement(id)).push(
        AstKind::Stmt(Statement::ExpressionStatement(expression)),
    )
}

/// Appending a leaf keeps the arena well formed and leaves a detached
/// expression behind.
pub proof fn lemma_with_leaf_well_formed<'a>(
    nodes: Seq<AstKind<'a>>,
    node: AstKind<'a>,
    expression: Expression,
)
    requires
        well_formed(nodes),
        nodes.len() + 2 <= MAX_ENTRIES,
        node.parent() == Some(ExpressionParent::Root),
        node is Ident || node is Str,
        expression.target() == NodeId(nodes.len() as usize),
        expression.target_type() == node.type_of(),
    ensures
        well_formed(with_leaf(nodes, node, expression)),
        detached(with_leaf(nodes, node, expression), NodeId((nodes.len() + 1) as usize)),
        forall|other: NodeId|
            detached(nodes, other) ==> #[trigger] detached(
                with_leaf(nodes, node, expression),
                other,
            ),
{
    let after = with_leaf(nodes, node, expression);
    assert forall|id: NodeId| id.0 < after.len() implies #[trigger] entry_linked(after, id) by {
        if id.0 < nodes.len() {
            assert(entry_linked(nodes, id));
            lemma_old_entry_stays_linked(nodes, after, id);
        }
    }
    assert forall|other: NodeId| detached(nodes, other) implies #[trigger] detached(
        after,
        other,
    ) by {
        assert(entry_linked(nodes, other));
    }
}

/// An entry that was linked stays linked when entries are appended and no
/// entry that it refers to is changed.
proof fn lemma_old_entry_stays_linked(
    before: Seq<AstKind<'_>>,
    after: Seq<AstKind<'_>>,
    id: NodeId,
)
    requires
        well_formed(before),
        id.0 < before.len(),
        before.len() <= after.len(),
        forall|other: NodeId| other.0 < before.len() ==> at(after, other) == at(before, other),
    ensures
        entry_linked(after, id),
{
    assert(entry_linked(before, id));
    match at(before, id).parent() {
        Some(tag) => {
            if !(tag is Root) {
                let parent = tag.node().unwrap();
                assert(entry_linked(before, parent));
            }
        },
        None => {},
    }
}

/// Appending a unary expression over a detached argument keeps the arena well
/// formed.
pub proof fn lemma_with_unary_well_formed(
    nodes: Seq<AstKind<'_>>,
    operator: UnaryOperator,
    argument: NodeId,
)
    requires
        well_formed(nodes),
        nodes.len() + 2 <= MAX_ENTRIES,
        detached(nodes, argument),
    ensures
        well_formed(with_unary(nodes, operator, argument)),
        detached(with_unary(nodes, operator, argument), NodeId((nodes.len() + 1) as usize)),
        keeps_detached(
            nodes,
            with_unary(nodes, operator, argument),
            under(nodes, argument),
            under(nodes, argument),
        ),
{
    let id = NodeId(nodes.len() as usize);
    let slot = ExpressionParent::UnaryExpression(id);
    let after = with_unary(nodes, operator, argument);
    let node = under(nodes, argument);
    assert(entry_linked(nodes, argument));
    assert(entry_linked(nodes, node));
    assert forall|other: NodeId| other.0 < after.len() implies #[trigger] entry_linked(
        after,
        other,
    ) by {
        if other.0 < nodes.len() {
            lemma_grown_entry(nodes, after, argument, slot, other);
        }
    }
    assert(keeps_detached(nodes, after, node, node)) by {
        assert forall|other: NodeId|
            detached(nodes, other) && under(nodes, other) != node
            implies #[trigger] detached(after, other) by {
            assert(entry_linked(nodes, other));
        }
    }
}

/// An entry of an arena in which one detached node was attached to a new
/// parent stays linked when that parent is appended.
proof fn lemma_grown_entry(
    nodes: Seq<AstKind<'_>>,
    after: Seq<AstKind<'_>>,
    expression: NodeId,
    slot: ExpressionParent,
    id: NodeId,
)
    requires
        well_formed(nodes),
        detached(nodes, expression),
        !(slot is Root),
        slot.node().unwrap().0 >= nodes.len(),
        id.0 < nodes.len(),
        nodes.len() <= after.len(),
        forall|other: NodeId|
            other.0 < nodes.len() && other != under(nodes, expression) ==> at(
                after,
                other,
            ) == at(nodes, other),
        at(after, under(nodes, expression)) == at(
            nodes,
            under(nodes, expression),
        ).with_parent(slot),
        crate::tree::occupant(after, slot) == Some(under(nodes, expression)),
    ensures
        entry_linked(after, id),
{
    let node = under(nodes, expression);
    assert(entry_linked(nodes, expression));
    assert(entry_linked(nodes, id));
    assert(entry_linked(nodes, node));
    match at(nodes, id) {
        AstKind::Stmt(Statement::ExpressionStatement(child)) => {
            assert(entry_linked(nodes, child));
        },
        AstKind::Binary(inner) => {
            assert(entry_linked(nodes, inner.left));
            assert(entry_linked(nodes, inner.right));
        },
        AstKind::Unary(inner) => {
            assert(entry_linked(nodes, inner.argument));
        },
        _ => {},
    }
    if id != node {
        match at(nodes, id).parent() {
            Some(tag) => {
                if !(tag is Root) {
                    let parent = tag.node().unwrap();
                    assert(entry_linked(nodes, parent));
                    assert(crate::tree::slot_field(after, tag) == crate::tree::slot_field(
                        nodes,
                        tag,
                    ));
                }
            },
            None => {},
        }
    }
}

/// Appending a statement over a detached expression keeps the arena well
/// formed.
pub proof fn lemma_with_statement_well_formed(nodes: Seq<AstKind<'_>>, expression: NodeId)
    requires
        well_formed(nodes),
        nodes.len() + 1 <= MAX_ENTRIES,
        detached(nodes, expression),
    ensures
        well_formed(with_statement(nodes, expression)),
        has_type(with_statement(nodes, expression), NodeId(nodes.len() as usize), AstType::Stmt),
        keeps_detached(
            nodes,
            with_statement(nodes, expression),
            under(nodes, expression),
            under(nodes, expression),
        ),
{
    let id = NodeId(nodes.len() as usize);
    let slot = ExpressionParent::ExpressionStatement(id);
    let after = with_statement(nodes, expression);
    let node = under(nodes, expression);
    assert(entry_linked(nodes, expression));
    assert(entry_linked(nodes, node));
    assert forall|other: NodeId| other.0 < after.len() implies #[trigger] entry_linked(
        after,
        other,
    ) by {
        if other.0 < nodes.len() {
            lemma_grown_entry(nodes, after, expression, slot, other);
        }
    }
    assert(keeps_detached(nodes, after, node, node)) by {
        assert forall|other: NodeId|
            detached(nodes, other) && under(nodes, other) != node
            implies #[trigger] detached(after, other) by {
            assert(entry_linked(nodes, other));
        }
    }
}

/// Appending a binary expression over two detached operands keeps the arena
/// well formed.
pub proof fn lemma_with_binary_well_formed(
    nodes: Seq<AstKind<'_>>,
    left: NodeId,
    operator: BinaryOperator,
    right: NodeId,
)
    requires
        well_formed(nodes),
        nodes.len() + 2 <= MAX_ENTRIES,
        detached(nodes, left),
        detached(nodes, right),
        under(nodes, left) != under(nodes, right),
    ensures
        well_formed(with_binary(nodes, left, operator, right)),
        detached(with_binary(nodes, left, operator, right), NodeId((nodes.len() + 1) as usize)),
        keeps_detached(
            nodes,
            with_binary(nodes, left, operator, right),
            under(nodes, left),
            under(nodes, right),
        ),
{
    let id = NodeId(nodes.len() as usize);
    let on_the_left = ExpressionParent::BinaryExpressionLeft(id);
    let on_the_right = ExpressionParent::BinaryExpressionRight(id);
    let between = attached(nodes, left, on_the_left);
    let after = with_binary(nodes, left, operator, right);
    let first = under(nodes, left);
    let second = under(nodes, right);
    assert(entry_linked(nodes, left));
    assert(entry_linked(nodes, right));
    assert(entry_linked(nodes, first));
    assert(entry_linked(nodes, second));
    assert(at(between, right) == at(nodes, right));
    assert forall|other: NodeId| other.0 < after.len() implies #[trigger] entry_linked(
        after,
        other,
    ) by {
        if other.0 < nodes.len() {
            assert(entry_linked(nodes, other));
            match at(nodes, other) {
                AstKind::Stmt(Statement::ExpressionStatement(child)) => {
                    assert(entry_linked(nodes, child));
                },
                AstKind::Binary(inner) => {
                    assert(entry_linked(nodes, inner.left));
                    assert(entry_linked(nodes, inner.right));
                },
                AstKind::Unary(inner) => {
                    assert(entry_linked(nodes, inner.argument));
                },
                _ => {},
            }
            if other != first && other != second {
                match at(nodes, other).parent() {
                    Some(tag) => {
                        if !(tag is Root) {
                            let parent = tag.node().unwrap();
                            assert(entry_linked(nodes, parent));
                            assert(crate::tree::slot_field(after, tag) == crate::tree::slot_field(
                                nodes,
                                tag,
                            ));
                        }
                    },
                    None => {},
                }
            }
        }
    }
    assert(keeps_detached(nodes, after, first, second)) by {
        assert forall|other: NodeId|
            detached(nodes, other) && under(nodes, other) != first && under(nodes, other) != second
            implies #[trigger] detached(after, other) by {
            assert(entry_linked(nodes, other));
        }
    }
}

impl<'a> Nodes<'a> {
    /// Whether `expression` is an expression entry whose node sits in no slot.
    pub fn is_detached(&self, expression: NodeId) -> (free: bool)
        requires
            well_formed(self@),
        ensures
            free == detached(self@, expression),
    {
        if !self.holds(expression, AstType::Expr) {
            return false;
        }
        let node = self.expression(expression).target();
        match self.get_node(node).parent() {
            Some(tag) => matches!(tag, ExpressionParent::Root),
            None => false,
        }
    }

    /// Tells the node under `expression` that it sits in `slot`.
    fn attach(&mut self, expression: NodeId, slot: ExpressionParent)
        requires
            detached(old(self)@, expression),
            under(old(self)@, expression).0 < old(self)@.len(),
        ensures
            final(self)@ == attached(old(self)@, expression, slot),
    {
        let node = self.get_node(expression).as_expr_unchecked().target();
        self.get_node_mut(node).set_parent(slot);
    }

    /// Appends an identifier and returns the handle of its expression entry.
    pub fn push_identifier(&mut self, name: &'a str) -> (expression: NodeId)
        requires
            well_formed(old(self)@),
            old(self)@.len() + 2 <= MAX_ENTRIES,
        ensures
            expression.0 == old(self)@.len() + 1,
            final(self)@ == with_leaf(
                old(self)@,
                AstKind::Ident(IdentifierReference { name, parent: ExpressionParent::Root }),
                Expression::Identifier(NodeId(old(self)@.len() as usize)),
            ),
            well_formed(final(self)@),
            detached(final(self)@, expression),
            forall|other: NodeId|
                detached(old(self)@, other) ==> #[trigger] detached(final(self)@, other),
    {
        let node = IdentifierReference { name, parent: ExpressionParent::Root };
        proof {
            lemma_with_leaf_well_formed(
                self@,
                AstKind::Ident(node),
                Expression::Identifier(NodeId(self@.len() as usize)),
            );
        }
        let id = self.push(node.as_ast_ref());
        self.push(Expression::Identifier(id).as_ast_ref())
    }

    /// Appends a string literal and returns the handle of its expression
    /// entry.
    pub fn push_string_literal(&mut self, value: &'a str) -> (expression: NodeId)
        requires
            well_formed(old(self)@),
            old(self)@.len() + 2 <= MAX_ENTRIES,
        ensures
            expression.0 == old(self)@.len() + 1,
            final(self)@ == with_leaf(
                old(self)@,
                AstKind::Str(StringLiteral { value, parent: ExpressionParent::Root }),
                Expression::StringLiteral(NodeId(old(self)@.len() as usize)),
            ),
            well_formed(final(self)@),
            detached(final(self)@, expression),
            forall|other: NodeId|
                detached(old(self)@, other) ==> #[trigger] detached(final(self)@, other),
    {
        let node = StringLiteral { value, parent: ExpressionParent::Root };
        proof {
            lemma_with_leaf_well_formed(
                self@,
                AstKind::Str(node),
                Expression::StringLiteral(NodeId(self@.len() as usize)),
            );
        }
        let id = self.push(node.as_ast_ref());
        self.push(Expression::StringLiteral(id).as_ast_ref())
    }

    /// Appends a unary expression over the detached `argument`, which it takes
    /// as its child, and returns the handle of its expression entry.
    pub fn push_unary(&mut self, operator: UnaryOperator, argument: NodeId) -> (expression: NodeId)
        requires
            well_formed(old(self)@),
            old(self)@.len() + 2 <= MAX_ENTRIES,
            detached(old(self)@, argument),
        ensures
            expression.0 == old(self)@.len() + 1,
            final(self)@ == with_unary(old(self)@, operator, argument),
            well_formed(final(self)@),
            detached(final(self)@, expression),
            keeps_detached(
                old(self)@,
                final(self)@,
                under(old(self)@, argument),
                under(old(self)@, argument),
            ),
    {
        proof {
            lemma_with_unary_well_formed(self@, operator, argument);
            assert(entry_linked(self@, argument));
        }
        let id = NodeId::new(self.len());
        self.attach(argument, ExpressionParent::UnaryExpression(id));
        let node = UnaryExpression { operator, argument, parent: ExpressionParent::Root };
        let id = self.push(node.as_ast_ref());
        self.push(Expression::UnaryExpression(id).as_ast_ref())
    }

    /// Appends a binary expression over the detached `left` and `right`,
    /// which it takes as its children, and returns the handle of its
    /// expression entry.
    pub fn push_binary(
        &mut self,
        left: NodeId,
        operator: BinaryOperator,
        right: NodeId,
    ) -> (expression: NodeId)
        requires
            well_formed(old(self)@),
            old(self)@.len() + 2 <= MAX_ENTRIES,
            detached(old(self)@, left),
            detached(old(self)@, right),
            under(old(self)@, left) != under(old(self)@, right),
        ensures
            expression.0 == old(self)@.len() + 1,
            final(self)@ == with_binary(old(self)@, left, operator, right),
            well_formed(final(self)@),
            detached(final(self)@, expression),
            keeps_detached(
                old(self)@,
                final(self)@,
                under(old(self)@, left),
                under(old(self)@, right),
            ),
    {
        proof {
            lemma_with_binary_well_formed(self@, left, operator, right);
            assert(entry_linked(self@, left));
            assert(entry_linked(self@, right));
        }
        let id = NodeId::new(self.len());
        self.attach(left, ExpressionParent::BinaryExpressionLeft(id));
        self.attach(right, ExpressionParent::BinaryExpressionRight(id));
        let node = BinaryExpression { left, operator, right, parent: ExpressionParent::Root };
        let id = self.push(node.as_ast_ref());
        self.push(Expression::BinaryExpression(id).as_ast_ref())
    }

    /// Appends a statement over the detached `expression`, which it takes as
    /// its child, and returns its handle.
    pub fn push_statement(&mut self, expression: NodeId) -> (statement: NodeId)
        requires
            well_formed(old(self)@),
            old(self)@.len() + 1 <= MAX_ENTRIES,
            detached(old(self)@, expression),
        ensures
            statement.0 == old(self)@.len(),
            final(self)@ == with_statement(old(self)@, expression),
            well_formed(final(self)@),
            has_type(final(self)@, statement, AstType::Stmt),
            keeps_detached(
                old(self)@,
                final(self)@,
                under(old(self)@, expression),
                under(old(self)@, expression),
            ),
    {
        proof {
            lemma_with_statement_well_formed(self@, expression);
            assert(entry_linked(self@, expression));
        }
        let id = NodeId::new(self.len());
        self.attach(expression, ExpressionParent::ExpressionStatement(id));
        self.push(Statement::ExpressionStatement(expression).as_ast_ref())
    }
}

} // verus!
