//! The transform driver: the one place where a traversal gets its token.

use crate::arena::Nodes;
use crate::ast::{AstType, NodeId};
use crate::cell::{GCell, Token};
use crate::tree::{entry_linked, has_type, well_formed};
use crate::visit::{extends, Visit};
use vstd::prelude::*;

verus! {

/// Why a tree was not handed to a transformer.
#[derive(Debug, Clone, Copy, PartialEq, Eq, Structural)]
pub enum TransformError {
    /// The handle given as the root names no statement of the arena.
    NotAStatement(NodeId),
    /// The links of this entry contradict each other or the entries they
    /// name. It is the first such entry of the arena.
    BrokenLink(NodeId),
}

/// Runs `transformer` on the tree under the statement `root`.
///
/// The driver creates the access token, takes the arena into the traversable
/// view, and hands the transformer a borrow of it that the token has granted.
/// When the top-level hook returns, the view is taken back and the token is
/// gone: nothing that the transformer did can outlast the call, and the
/// caller goes on with the arena it lent, changed in place.
pub fn transform<'a, T: Visit<'a>>(transformer: &mut T, root: NodeId, nodes: &mut Nodes<'a>)
    requires
        well_formed(old(nodes)@),
        has_type(old(nodes)@, root, AstType::Stmt),
    ensures
        well_formed(final(nodes)@),
        extends(old(nodes)@, final(nodes)@),
        old(transformer).visited_statement(
            old(nodes)@,
            root,
            final(transformer),
            final(nodes)@,
        ),
{
    let mut token = Token::new_unchecked();
    let mut program = GCell::new(nodes);
    transformer.visit_statement(root, program.borrow_mut(&mut token));
    let _ = program.into_inner();
}

/// Runs `transformer` on the tree under `root` if the arena is fit for a
/// traversal, and otherwise reports what is wrong with it and touches
/// nothing.
pub fn try_transform<'a, T: Visit<'a>>(
    transformer: &mut T,
    root: NodeId,
    nodes: &mut Nodes<'a>,
) -> (outcome: Result<(), TransformError>)
    ensures
        outcome is Ok ==> well_formed(old(nodes)@) && has_type(old(nodes)@, root, AstType::Stmt),
        outcome is Ok ==> well_formed(final(nodes)@) && extends(old(nodes)@, final(nodes)@),
        outcome is Ok ==> old(transformer).visited_statement(
            old(nodes)@,
            root,
            final(transformer),
            final(nodes)@,
        ),
        outcome is Err ==> final(nodes)@ == old(nodes)@ && *final(transformer) == *old(
            transformer,
        ),
        outcome matches Err(TransformError::NotAStatement(id)) ==> id == root && !has_type(
            old(nodes)@,
            root,
            AstType::Stmt,
        ),
        outcome matches Err(TransformError::BrokenLink(id)) ==> has_type(
            old(nodes)@,
            root,
            AstType::Stmt,
        ) && id.0 < old(nodes)@.len() && !entry_linked(old(nodes)@, id),
        outcome matches Err(TransformError::BrokenLink(id)) ==> forall|earlier: NodeId|
            earlier.0 < id.0 ==> entry_linked(old(nodes)@, earlier),
{
    if !nodes.holds(root, AstType::Stmt) {
        return Err(TransformError::NotAStatement(root));
    }
    match nodes.first_unlinked() {
        Some(id) => Err(TransformError::BrokenLink(id)),
        None => {
            transform(transformer, root, nodes);
            Ok(())
        },
    }
}

} // verus!
