//! What it means for the entries of an arena to form trees, stated over the
//! arena's view.
//!
//! Child links are handles to [`Expression`](crate::ast::Expression) entries,
//! which in turn name the entry of the payload. Parent tags are kept by the
//! payload entries and name the slot that currently refers to them.

use crate::ast::{AstKind, AstType, BinaryExpression, ExpressionParent, NodeId, Statement};
use vstd::prelude::*;

verus! {

/// What the entry of `id` holds.
pub open spec fn at<'a>(nodes: Seq<AstKind<'a>>, id: NodeId) -> AstKind<'a> {
    nodes[id.0 as int]
}

/// Whether `id` names an entry of kind `ty`.
pub open spec fn has_type(nodes: Seq<AstKind<'_>>, id: NodeId, ty: AstType) -> bool {
    id.0 < nodes.len() && at(nodes, id).type_of() == ty
}

/// The handle that the field named by `slot` holds, if `slot` names a field of
/// an entry of the right kind.
pub open spec fn slot_field(nodes: Seq<AstKind<'_>>, slot: ExpressionParent) -> Option<NodeId> {
    match slot {
        ExpressionParent::Root => None,
        ExpressionParent::ExpressionStatement(parent) => if has_type(
            nodes,
            parent,
            AstType::Stmt,
        ) {
            match at(nodes, parent)->Stmt_0 {
                Statement::ExpressionStatement(expression) => Some(expression),
            }
        } else {
            None
        },
        ExpressionParent::BinaryExpressionLeft(parent) => if has_type(
            nodes,
            parent,
            AstType::Binary,
        ) {
            Some(at(nodes, parent)->Binary_0.left)
        } else {
            None
        },
        ExpressionParent::BinaryExpressionRight(parent) => if has_type(
            nodes,
            parent,
            AstType::Binary,
        ) {
            Some(at(nodes, parent)->Binary_0.right)
        } else {
            None
        },
        ExpressionParent::UnaryExpression(parent) => if has_type(nodes, parent, AstType::Unary) {
            Some(at(nodes, parent)->Unary_0.argument)
        } else {
            None
        },
    }
}

/// The payload that an `Expression` entry names.
pub open spec fn payload_of(nodes: Seq<AstKind<'_>>, expression: NodeId) -> Option<NodeId> {
    if has_type(nodes, expression, AstType::Expr) {
        Some(at(nodes, expression)->Expr_0.target())
    } else {
        None
    }
}

/// The node that sits in `slot`: the payload of the expression that the
/// slot's field holds.
pub open spec fn occupant(nodes: Seq<AstKind<'_>>, slot: ExpressionParent) -> Option<NodeId> {
    match slot_field(nodes, slot) {
        Some(expression) => payload_of(nodes, expression),
        None => None,
    }
}

/// A child link of the entry `parent` is sound: it names an `Expression` entry
/// allocated before `parent`, and the payload under it reports `slot`.
pub open spec fn child_linked(
    nodes: Seq<AstKind<'_>>,
    parent: NodeId,
    child: NodeId,
    slot: ExpressionParent,
) -> bool {
    &&& child.0 < parent.0
    &&& has_type(nodes, child, AstType::Expr)
    &&& at(nodes, child)->Expr_0.target().0 < child.0
    &&& at(nodes, at(nodes, child)->Expr_0.target()).parent() == Some(slot)
}

/// The parent tag of the entry `id` is sound: the node is in no slot, or the
/// slot that the tag names is occupied by this very node.
pub open spec fn parent_linked(nodes: Seq<AstKind<'_>>, id: NodeId, tag: ExpressionParent) -> bool {
    tag is Root || occupant(nodes, tag) == Some(id)
}

/// Everything that must hold of the entry `id`.
pub open spec fn entry_linked(nodes: Seq<AstKind<'_>>, id: NodeId) -> bool {
    match at(nodes, id) {
        AstKind::Stmt(Statement::ExpressionStatement(expression)) => child_linked(
            nodes,
            id,
            expression,
            ExpressionParent::ExpressionStatement(id),
        ),
        AstKind::Expr(expression) => expression.target().0 < id.0 && has_type(
            nodes,
            expression.target(),
            expression.target_type(),
        ),
        AstKind::Ident(node) => parent_linked(nodes, id, node.parent),
        AstKind::Str(node) => parent_linked(nodes, id, node.parent),
        AstKind::Binary(node) => {
            &&& child_linked(nodes, id, node.left, ExpressionParent::BinaryExpressionLeft(id))
            &&& child_linked(nodes, id, node.right, ExpressionParent::BinaryExpressionRight(id))
            &&& parent_linked(nodes, id, node.parent)
        },
        AstKind::Unary(node) => {
            &&& child_linked(nodes, id, node.argument, ExpressionParent::UnaryExpression(id))
            &&& parent_linked(nodes, id, node.parent)
        },
    }
}

/// The entries form a forest with consistent back-links:
/// - every child link names an entry that was allocated before its parent, so
///   links cannot form a cycle;
/// - the node under a child link reports exactly that slot as its parent, so
///   no node is shared between two slots;
/// - every parent tag names the slot that refers to the node.
pub open spec fn well_formed(nodes: Seq<AstKind<'_>>) -> bool {
    forall|id: NodeId| id.0 < nodes.len() ==> #[trigger] entry_linked(nodes, id)
}

/// Parent consistency: following the parent tag of any node that is in a slot,
/// and reading the field that the tag names, leads back to the node itself.
pub proof fn lemma_parent_resolves(nodes: Seq<AstKind<'_>>, id: NodeId)
    requires
        well_formed(nodes),
        id.0 < nodes.len(),
        at(nodes, id).parent() matches Some(tag) && !(tag is Root),
    ensures
        occupant(nodes, at(nodes, id).parent().unwrap()) == Some(id),
{
    assert(entry_linked(nodes, id));
}

/// Child consistency, the converse: the node under any child link reports the
/// slot of that link.
pub proof fn lemma_child_reports_slot(nodes: Seq<AstKind<'_>>, slot: ExpressionParent)
    requires
        well_formed(nodes),
        occupant(nodes, slot) is Some,
    ensures
        at(nodes, occupant(nodes, slot).unwrap()).parent() == Some(slot),
        occupant(nodes, slot).unwrap().0 < nodes.len(),
{
    let parent = slot.node().unwrap();
    assert(entry_linked(nodes, parent));
    let field = slot_field(nodes, slot).unwrap();
    assert(entry_linked(nodes, field));
}

/// The arena after the two operands of the binary expression `binary` have
/// changed places: the node's `left` and `right` are exchanged, and each
/// operand's parent tag names the slot that it has moved to.
pub open spec fn swapped<'a>(nodes: Seq<AstKind<'a>>, binary: NodeId) -> Seq<AstKind<'a>> {
    let node = at(nodes, binary)->Binary_0;
    let left = at(nodes, node.left)->Expr_0.target();
    let right = at(nodes, node.right)->Expr_0.target();
    nodes.update(
        binary.0 as int,
        AstKind::Binary(
            BinaryExpression {
                left: node.right,
                operator: node.operator,
                right: node.left,
                parent: node.parent,
            },
        ),
    ).update(
        left.0 as int,
        at(nodes, left).with_parent(ExpressionParent::BinaryExpressionRight(binary)),
    ).update(
        right.0 as int,
        at(nodes, right).with_parent(ExpressionParent::BinaryExpressionLeft(binary)),
    )
}

/// Two arenas have the same entries of the same kinds.
pub open spec fn same_shape(before: Seq<AstKind<'_>>, after: Seq<AstKind<'_>>) -> bool {
    &&& before.len() == after.len()
    &&& forall|id: NodeId|
        id.0 < before.len() ==> (#[trigger] at(after, id)).type_of() == at(before, id).type_of()
}

/// Exchanging the operands of a binary expression keeps the tree consistent:
/// afterwards each operand's parent tag names the slot it now occupies, and
/// every other link is as it was.
pub proof fn lemma_swapped_well_formed(nodes: Seq<AstKind<'_>>, binary: NodeId)
    requires
        well_formed(nodes),
        has_type(nodes, binary, AstType::Binary),
    ensures
        well_formed(swapped(nodes, binary)),
        same_shape(nodes, swapped(nodes, binary)),
        occupant(swapped(nodes, binary), ExpressionParent::BinaryExpressionLeft(binary))
            == occupant(nodes, ExpressionParent::BinaryExpressionRight(binary)),
        occupant(swapped(nodes, binary), ExpressionParent::BinaryExpressionRight(binary))
            == occupant(nodes, ExpressionParent::BinaryExpressionLeft(binary)),
{
    let after = swapped(nodes, binary);
    let node = at(nodes, binary)->Binary_0;
    let left = at(nodes, node.left)->Expr_0.target();
    let right = at(nodes, node.right)->Expr_0.target();
    assert(entry_linked(nodes, binary));
    assert(entry_linked(nodes, node.left));
    assert(entry_linked(nodes, node.right));
    assert(left != right);
    assert(left != binary && right != binary);
    assert forall|id: NodeId| id.0 < after.len() implies #[trigger] entry_linked(after, id) by {
        assert(entry_linked(nodes, id));
        lemma_swapped_entry(nodes, binary, id);
    }
    assert forall|id: NodeId| id.0 < nodes.len() implies (#[trigger] at(after, id)).type_of()
        == at(nodes, id).type_of() by {
        assert(entry_linked(nodes, id));
    }
}

proof fn lemma_swapped_entry(nodes: Seq<AstKind<'_>>, binary: NodeId, id: NodeId)
    requires
        well_formed(nodes),
        has_type(nodes, binary, AstType::Binary),
        id.0 < nodes.len(),
    ensures
        entry_linked(swapped(nodes, binary), id),
{
    let after = swapped(nodes, binary);
    let node = at(nodes, binary)->Binary_0;
    let left = at(nodes, node.left)->Expr_0.target();
    let right = at(nodes, node.right)->Expr_0.target();
    assert(entry_linked(nodes, binary));
    assert(entry_linked(nodes, node.left));
    assert(entry_linked(nodes, node.right));
    assert(entry_linked(nodes, left));
    assert(entry_linked(nodes, right));
    assert(entry_linked(nodes, id));
    assert(forall|other: NodeId|
        other.0 < nodes.len() && at(nodes, other) is Expr ==> at(after, other) == at(nodes, other));
    match at(nodes, id) {
        AstKind::Stmt(Statement::ExpressionStatement(expression)) => {},
        AstKind::Expr(expression) => {},
        AstKind::Ident(inner) => {
            lemma_swapped_parent(nodes, binary, id);
        },
        AstKind::Str(inner) => {
            lemma_swapped_parent(nodes, binary, id);
        },
        AstKind::Binary(inner) => {
            lemma_swapped_parent(nodes, binary, id);
        },
        AstKind::Unary(inner) => {
            lemma_swapped_parent(nodes, binary, id);
        },
    }
}

proof fn lemma_swapped_parent(nodes: Seq<AstKind<'_>>, binary: NodeId, id: NodeId)
    requires
        well_formed(nodes),
        has_type(nodes, binary, AstType::Binary),
        id.0 < nodes.len(),
        at(nodes, id).parent() is Some,
    ensures
        parent_linked(
            swapped(nodes, binary),
            id,
            at(swapped(nodes, binary), id).parent().unwrap(),
        ),
{
    let after = swapped(nodes, binary);
    let node = at(nodes, binary)->Binary_0;
    let left = at(nodes, node.left)->Expr_0.target();
    let right = at(nodes, node.right)->Expr_0.target();
    assert(entry_linked(nodes, binary));
    assert(entry_linked(nodes, node.left));
    assert(entry_linked(nodes, node.right));
    assert(entry_linked(nodes, id));
    let tag = at(nodes, id).parent().unwrap();
    if id != left && id != right && !(tag is Root) {
        let parent = tag.node().unwrap();
        let field = slot_field(nodes, tag).unwrap();
        assert(entry_linked(nodes, parent));
        assert(slot_field(after, tag) == Some(field));
    }
}

/// The handles of the entries that can be reached from the entry `from` by
/// following child links, `from` included.
pub open spec fn reachable(nodes: Seq<AstKind<'_>>, from: NodeId) -> Set<NodeId>
    decreases from.0,
{
    if from.0 >= nodes.len() {
        Set::empty()
    } else {
        match at(nodes, from) {
            AstKind::Stmt(Statement::ExpressionStatement(expression)) => (if expression.0
                < from.0 {
                reachable(nodes, expression)
            } else {
                Set::empty()
            }).insert(from),
            AstKind::Expr(expression) => (if expression.target().0 < from.0 {
                reachable(nodes, expression.target())
            } else {
                Set::empty()
            }).insert(from),
            AstKind::Binary(node) => (if node.left.0 < from.0 {
                reachable(nodes, node.left)
            } else {
                Set::empty()
            }).union(
                if node.right.0 < from.0 {
                    reachable(nodes, node.right)
                } else {
                    Set::empty()
                },
            ).insert(from),
            AstKind::Unary(node) => (if node.argument.0 < from.0 {
                reachable(nodes, node.argument)
            } else {
                Set::empty()
            }).insert(from),
            _ => Set::empty().insert(from),
        }
    }
}

/// Exchanging the operands of a binary expression moves nodes but loses and
/// gains none: from every entry, the same entries can be reached as before.
pub proof fn lemma_swapped_reaches_the_same(nodes: Seq<AstKind<'_>>, binary: NodeId, from: NodeId)
    requires
        well_formed(nodes),
        has_type(nodes, binary, AstType::Binary),
    ensures
        reachable(swapped(nodes, binary), from) == reachable(nodes, from),
    decreases from.0,
{
    let after = swapped(nodes, binary);
    let node = at(nodes, binary)->Binary_0;
    let left = at(nodes, node.left)->Expr_0.target();
    let right = at(nodes, node.right)->Expr_0.target();
    assert(entry_linked(nodes, binary));
    assert(entry_linked(nodes, node.left));
    assert(entry_linked(nodes, node.right));
    if from.0 < nodes.len() {
        assert(entry_linked(nodes, from));
        match at(nodes, from) {
            AstKind::Stmt(Statement::ExpressionStatement(expression)) => {
                lemma_swapped_reaches_the_same(nodes, binary, expression);
            },
            AstKind::Expr(expression) => {
                lemma_swapped_reaches_the_same(nodes, binary, expression.target());
            },
            AstKind::Binary(inner) => {
                lemma_swapped_reaches_the_same(nodes, binary, inner.left);
                lemma_swapped_reaches_the_same(nodes, binary, inner.right);
            },
            AstKind::Unary(inner) => {
                lemma_swapped_reaches_the_same(nodes, binary, inner.argument);
            },
            _ => {},
        }
        assert(reachable(after, from) =~= reachable(nodes, from));
    }
}

/// Whether the entry `after` is the entry `before` up to an exchange of
/// operands: the same node with the same contents, where a binary expression
/// may have its two operands the other way round and any parent tag may have
/// been rewritten.
pub open spec fn entry_exchanged(before: AstKind<'_>, after: AstKind<'_>) -> bool {
    match before {
        AstKind::Stmt(node) => after == before,
        AstKind::Expr(node) => after == before,
        AstKind::Ident(node) => after matches AstKind::Ident(other) && other.name == node.name,
        AstKind::Str(node) => after matches AstKind::Str(other) && other.value == node.value,
        AstKind::Binary(node) => {
            &&& after matches AstKind::Binary(other)
            &&& other.operator == node.operator
            &&& (other.left == node.left && other.right == node.right || other.left == node.right
                && other.right == node.left)
        },
        AstKind::Unary(node) => {
            &&& after matches AstKind::Unary(other)
            &&& other.operator == node.operator
            &&& other.argument == node.argument
        },
    }
}

/// Whether the entry `id` of `after` is that of `before` up to an exchange of
/// operands.
pub open spec fn exchanged_at(
    before: Seq<AstKind<'_>>,
    after: Seq<AstKind<'_>>,
    id: NodeId,
) -> bool {
    entry_exchanged(at(before, id), at(after, id))
}

/// Whether `after` is `before` up to exchanges of operands: no entry is added
/// or removed, and every node keeps its contents and its children.
pub open spec fn exchange_of(before: Seq<AstKind<'_>>, after: Seq<AstKind<'_>>) -> bool {
    &&& before.len() == after.len()
    &&& forall|id: NodeId| id.0 < before.len() ==> #[trigger] exchanged_at(before, after, id)
}

/// Exchanges of operands compose.
pub proof fn lemma_exchange_of_transitive(
    first: Seq<AstKind<'_>>,
    second: Seq<AstKind<'_>>,
    third: Seq<AstKind<'_>>,
)
    requires
        exchange_of(first, second),
        exchange_of(second, third),
    ensures
        exchange_of(first, third),
{
    assert forall|id: NodeId| id.0 < first.len() implies #[trigger] exchanged_at(
        first,
        third,
        id,
    ) by {
        assert(exchanged_at(first, second, id));
        assert(exchanged_at(second, third, id));
    }
}

/// [`swapped`] is an exchange of operands.
pub proof fn lemma_swapped_is_exchange(nodes: Seq<AstKind<'_>>, binary: NodeId)
    requires
        well_formed(nodes),
        has_type(nodes, binary, AstType::Binary),
    ensures
        exchange_of(nodes, swapped(nodes, binary)),
{
    let after = swapped(nodes, binary);
    let node = at(nodes, binary)->Binary_0;
    let left = at(nodes, node.left)->Expr_0.target();
    let right = at(nodes, node.right)->Expr_0.target();
    assert(entry_linked(nodes, binary));
    assert(entry_linked(nodes, node.left));
    assert(entry_linked(nodes, node.right));
    assert forall|id: NodeId| id.0 < nodes.len() implies #[trigger] exchanged_at(
        nodes,
        after,
        id,
    ) by {
        assert(entry_linked(nodes, id));
    }
}

} // verus!
