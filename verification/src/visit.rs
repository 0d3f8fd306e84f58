//! The visitor framework: one hook per node kind, and for each kind a walk
//! that descends into the children in a fixed order.

use crate::arena::Nodes;
use crate::ast::{AstKind, AstType, Expression, NodeId, Statement};
use crate::tree::{at, has_type, well_formed};
use vstd::prelude::*;

verus! {

/// What a hook may do to the arena as a whole: entries are never removed, and
/// an entry never changes its kind.
pub open spec fn extends(before: Seq<AstKind<'_>>, after: Seq<AstKind<'_>>) -> bool {
    &&& before.len() <= after.len()
    &&& forall|id: NodeId|
        id.0 < before.len() ==> (#[trigger] at(after, id)).type_of() == at(before, id).type_of()
}

/// The expression entry that a statement entry names.
pub open spec fn statement_expression(nodes: Seq<AstKind<'_>>, id: NodeId) -> NodeId {
    match at(nodes, id)->Stmt_0 {
        Statement::ExpressionStatement(expression) => expression,
    }
}

/// A visitor of the trees of an arena.
///
/// There is one hook per node kind (`visit_*`) and, for the kinds that have
/// children, one walk (`walk_*`). A hook may read any node, edit any node,
/// upwards as well as downwards, and decide whether and when it calls the
/// walk of its kind: before its own edit, after it, or not at all.
///
/// # What an implementation owes
///
/// Every method receives a well-formed arena and a handle of the right kind,
/// and must leave the arena well formed, with no entry removed and no entry
/// changed in kind.
///
/// A walk descends in a fixed order, which its contract pins down: a
/// statement into its expression; an expression into the hook of the kind it
/// names; a binary expression into its left operand and then its right, both
/// as the node named them when the walk began; a unary expression into its
/// argument. Every implementation writes its walks itself, since this is a
/// cycle of calls that a shared body could not be proved to end.
///
/// # What an implementation may promise
///
/// The `visited_*` relations say what a hook does: they relate the visitor
/// and the arena before the call to the visitor and the arena after it. They
/// promise nothing unless an implementation defines them; whatever it
/// defines it must prove of its hooks, and callers learn it from
/// [`transform`](crate::traverse::transform).
pub trait Visit<'a>: Sized {
    /// What `visit_statement` on the statement `id` does: called on `self`
    /// with the arena `nodes`, it ends with the visitor `end` and the arena
    /// `result`.
    open spec fn visited_statement(
        &self,
        nodes: Seq<AstKind<'a>>,
        id: NodeId,
        end: &Self,
        result: Seq<AstKind<'a>>,
    ) -> bool {
        true
    }

    /// What `visit_expression` on the expression entry `id` does.
    open spec fn visited_expression(
        &self,
        nodes: Seq<AstKind<'a>>,
        id: NodeId,
        end: &Self,
        result: Seq<AstKind<'a>>,
    ) -> bool {
        true
    }

    /// What `visit_identifier_reference` on the identifier `id` does.
    open spec fn visited_identifier_reference(
        &self,
        nodes: Seq<AstKind<'a>>,
        id: NodeId,
        end: &Self,
        result: Seq<AstKind<'a>>,
    ) -> bool {
        true
    }

    /// What `visit_string_literal` on the string literal `id` does.
    open spec fn visited_string_literal(
        &self,
        nodes: Seq<AstKind<'a>>,
        id: NodeId,
        end: &Self,
        result: Seq<AstKind<'a>>,
    ) -> bool {
        true
    }

    /// What `visit_binary_expression` on the binary expression `id` does.
    open spec fn visited_binary_expression(
        &self,
        nodes: Seq<AstKind<'a>>,
        id: NodeId,
        end: &Self,
        result: Seq<AstKind<'a>>,
    ) -> bool {
        true
    }

    /// What `visit_unary_expression` on the unary expression `id` does.
    open spec fn visited_unary_expression(
        &self,
        nodes: Seq<AstKind<'a>>,
        id: NodeId,
        end: &Self,
        result: Seq<AstKind<'a>>,
    ) -> bool {
        true
    }

    fn visit_statement(&mut self, id: NodeId, nodes: &mut Nodes<'a>)
        requires
            well_formed(old(nodes)@),
            has_type(old(nodes)@, id, AstType::Stmt),
        ensures
            well_formed(final(nodes)@),
            extends(old(nodes)@, final(nodes)@),
            old(self).visited_statement(old(nodes)@, id, final(self), final(nodes)@),
    ;

    fn visit_expression(&mut self, id: NodeId, nodes: &mut Nodes<'a>)
        requires
            well_formed(old(nodes)@),
            has_type(old(nodes)@, id, AstType::Expr),
        ensures
            well_formed(final(nodes)@),
            extends(old(nodes)@, final(nodes)@),
            old(self).visited_expression(old(nodes)@, id, final(self), final(nodes)@),
    ;

    fn visit_identifier_reference(&mut self, id: NodeId, nodes: &mut Nodes<'a>)
        requires
            well_formed(old(nodes)@),
            has_type(old(nodes)@, id, AstType::Ident),
        ensures
            well_formed(final(nodes)@),
            extends(old(nodes)@, final(nodes)@),
            old(self).visited_identifier_reference(old(nodes)@, id, final(self), final(nodes)@),
    ;

    fn visit_string_literal(&mut self, id: NodeId, nodes: &mut Nodes<'a>)
        requires
            well_formed(old(nodes)@),
            has_type(old(nodes)@, id, AstType::Str),
        ensures
            well_formed(final(nodes)@),
            extends(old(nodes)@, final(nodes)@),
            old(self).visited_string_literal(old(nodes)@, id, final(self), final(nodes)@),
    ;

    fn visit_binary_expression(&mut self, id: NodeId, nodes: &mut Nodes<'a>)
        requires
            well_formed(old(nodes)@),
            has_type(old(nodes)@, id, AstType::Binary),
        ensures
            well_formed(final(nodes)@),
            extends(old(nodes)@, final(nodes)@),
            old(self).visited_binary_expression(old(nodes)@, id, final(self), final(nodes)@),
    ;

    fn visit_unary_expression(&mut self, id: NodeId, nodes: &mut Nodes<'a>)
        requires
            well_formed(old(nodes)@),
            has_type(old(nodes)@, id, AstType::Unary),
        ensures
            well_formed(final(nodes)@),
            extends(old(nodes)@, final(nodes)@),
            old(self).visited_unary_expression(old(nodes)@, id, final(self), final(nodes)@),
    ;

    fn walk_statement(&mut self, id: NodeId, nodes: &mut Nodes<'a>)
        requires
            well_formed(old(nodes)@),
            has_type(old(nodes)@, id, AstType::Stmt),
        ensures
            well_formed(final(nodes)@),
            extends(old(nodes)@, final(nodes)@),
            old(self).visited_expression(
                old(nodes)@,
                statement_expression(old(nodes)@, id),
                final(self),
                final(nodes)@,
            ),
    ;

    fn walk_expression(&mut self, id: NodeId, nodes: &mut Nodes<'a>)
        requires
            well_formed(old(nodes)@),
            has_type(old(nodes)@, id, AstType::Expr),
        ensures
            well_formed(final(nodes)@),
            extends(old(nodes)@, final(nodes)@),
            (match at(old(nodes)@, id)->Expr_0 {
                Expression::Identifier(it) => old(self).visited_identifier_reference(
                    old(nodes)@,
                    it,
                    final(self),
                    final(nodes)@,
                ),
                Expression::StringLiteral(it) => old(self).visited_string_literal(
                    old(nodes)@,
                    it,
                    final(self),
                    final(nodes)@,
                ),
                Expression::BinaryExpression(it) => old(self).visited_binary_expression(
                    old(nodes)@,
                    it,
                    final(self),
                    final(nodes)@,
                ),
                Expression::UnaryExpression(it) => old(self).visited_unary_expression(
                    old(nodes)@,
                    it,
                    final(self),
                    final(nodes)@,
                ),
            }),
    ;

    fn walk_binary_expression(&mut self, id: NodeId, nodes: &mut Nodes<'a>)
        requires
            well_formed(old(nodes)@),
            has_type(old(nodes)@, id, AstType::Binary),
        ensures
            well_formed(final(nodes)@),
            extends(old(nodes)@, final(nodes)@),
            exists|middle: Self, between: Seq<AstKind<'a>>|
                #[trigger] old(self).visited_expression(
                    old(nodes)@,
                    at(old(nodes)@, id)->Binary_0.left,
                    &middle,
                    between,
                ) && #[trigger] middle.visited_expression(
                    between,
                    at(old(nodes)@, id)->Binary_0.right,
                    final(self),
                    final(nodes)@,
                ),
    ;

    fn walk_unary_expression(&mut self, id: NodeId, nodes: &mut Nodes<'a>)
        requires
            well_formed(old(nodes)@),
            has_type(old(nodes)@, id, AstType::Unary),
        ensures
            well_formed(final(nodes)@),
            extends(old(nodes)@, final(nodes)@),
            old(self).visited_expression(
                old(nodes)@,
                at(old(nodes)@, id)->Unary_0.argument,
                final(self),
                final(nodes)@,
            ),
    ;
}

} // verus!
