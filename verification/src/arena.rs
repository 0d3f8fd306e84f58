//! The node arena: one store that owns every node of a tree and hands out
//! stable handles.
//!
//! The store is a `bumpalo::collections::Vec`. Verus does not read bumpalo, so
//! what each of its methods does to the stored entries is stated here and
//! believed; everything else in this module is proved from those statements.

use crate::ast::{AstKind, AstRef, AstType, Expression, ExpressionParent, NodeId, Statement};
use crate::tree::{
    at, child_linked, entry_linked, has_type, lemma_swapped_well_formed, parent_linked,
    slot_field, swapped, well_formed,
};
use vstd::prelude::*;

verus! {

/// `bumpalo::collections::Vec`, taken as it is: nothing inside it is visible
/// here.
#[verifier::external_type_specification]
#[verifier::external_body]
#[verifier::reject_recursive_types(T)]
pub struct ExBumpVec<'bump, T>(bumpalo::collections::Vec<'bump, T>);

/// `bumpalo::Bump`, the allocator in which a store keeps its buffer. It is
/// only ever passed on.
#[verifier::external_type_specification]
#[verifier::external_body]
pub struct ExBump<const MIN_ALIGN: usize>(bumpalo::Bump<MIN_ALIGN>);

/// The entries that a `bumpalo::collections::Vec` holds, in the order of
/// their positions.
pub uninterp spec fn stored(store: bumpalo::collections::Vec<'_, AstRef<'_>>) -> Seq<
    AstRef<'static>,
>;

/// The largest capacity that [`Nodes::with_capacity_in`] accepts.
///
/// An entry takes 64 bytes at most, so a buffer of this many entries stays
/// far below the size at which bumpalo reports a capacity overflow. An arena
/// grows past it by itself.
pub const MAX_INITIAL_CAPACITY: usize = 1024;

/// `bumpalo::collections::Vec::with_capacity_in`: an empty store whose buffer
/// lies in `bump`. The call panics when the buffer's size in bytes overflows,
/// which the bound on `capacity` rules out; running out of memory is not an
/// input and is not described.
#[verifier::external_body]
fn store_with_capacity_in<'a>(
    capacity: usize,
    bump: &'a bumpalo::Bump,
) -> (store: bumpalo::collections::Vec<'a, AstRef<'a>>)
    requires
        capacity <= MAX_INITIAL_CAPACITY,
    ensures
        stored(store) == Seq::<AstRef<'a>>::empty(),
{
    bumpalo::collections::Vec::with_capacity_in(capacity, bump)
}

/// `bumpalo::collections::Vec::len`: the number of entries.
#[verifier::external_body]
fn store_len<'a>(store: &bumpalo::collections::Vec<'a, AstRef<'a>>) -> (len: usize)
    ensures
        len == stored(*store).len(),
{
    store.len()
}

/// The largest number of entries that an arena takes.
///
/// When its buffer is full, bumpalo doubles it, and panics if the new size in
/// bytes exceeds `isize::MAX`. An entry takes 64 bytes at most, so below this
/// number of entries the doubled buffer stays within that size.
pub const MAX_ENTRIES: usize = usize::MAX / 256;

/// `bumpalo::collections::Vec::push`: appends one entry and leaves the others
/// where they are. The call panics when the buffer would grow past
/// `isize::MAX` bytes, which the bound on the length rules out; running out of
/// memory is not an input and is not described.
#[verifier::external_body]
fn store_push<'a>(store: &mut bumpalo::collections::Vec<'a, AstRef<'a>>, entry: AstRef<'a>)
    requires
        stored(*old(store)).len() < MAX_ENTRIES,
    ensures
        stored(*final(store)) == stored(*old(store)).push(entry),
{
    store.push(entry)
}

/// Indexing a `bumpalo::collections::Vec` by position: the entry at `index`.
/// It panics past the end, which `requires` leaves out.
#[verifier::external_body]
fn store_index<'s, 'a>(
    store: &'s bumpalo::collections::Vec<'a, AstRef<'a>>,
    index: usize,
) -> (entry: &'s AstRef<'a>)
    requires
        index < stored(*store).len(),
    ensures
        *entry == stored(*store)[index as int],
{
    &store[index]
}

/// Indexing a `bumpalo::collections::Vec` mutably by position: the entry at
/// `index`, the only one that the borrower can change. It panics past the end,
/// which `requires` leaves out.
#[verifier::external_body]
fn store_index_mut<'s, 'a>(
    store: &'s mut bumpalo::collections::Vec<'a, AstRef<'a>>,
    index: usize,
) -> (entry: &'s mut AstRef<'a>)
    requires
        index < stored(*old(store)).len(),
    ensures
        *entry == stored(*old(store))[index as int],
        stored(*final(store)) == stored(*old(store)).update(index as int, *final(entry)),
{
    &mut store[index]
}

/// The arena of one tree: the owning view of its nodes.
///
/// Entries are only ever appended, so a handle stays valid for as long as the
/// arena lives. The view is the sequence of what the entries hold. A handle
/// that the arena does not contain is refused by every method's `requires`;
/// code that Verus does not check is stopped by a panic instead.
pub struct Nodes<'a> {
    entries: bumpalo::collections::Vec<'a, AstRef<'a>>,
}

impl<'a> View for Nodes<'a> {
    type V = Seq<AstKind<'a>>;

    closed spec fn view(&self) -> Seq<AstKind<'a>> {
        Seq::new(stored(self.entries).len(), |i: int| stored(self.entries)[i]@)
    }
}

impl<'a> Nodes<'a> {
    /// Whether `id` is a handle of this arena.
    pub open spec fn contains(&self, id: NodeId) -> bool {
        id.0 < self@.len()
    }

    /// An empty arena whose entries will lie in `bump`.
    pub fn with_capacity_in(capacity: usize, bump: &'a bumpalo::Bump) -> (nodes: Self)
        requires
            capacity <= MAX_INITIAL_CAPACITY,
        ensures
            nodes@ == Seq::<AstKind<'a>>::empty(),
    {
        let nodes = Nodes { entries: store_with_capacity_in(capacity, bump) };
        assert(nodes@ =~= Seq::<AstKind<'a>>::empty());
        nodes
    }

    /// The number of entries.
    pub fn len(&self) -> (len: usize)
        ensures
            len == self@.len(),
    {
        store_len(&self.entries)
    }

    /// Allocates an entry for `entry` and returns its handle.
    pub fn push(&mut self, entry: AstRef<'a>) -> (id: NodeId)
        requires
            old(self)@.len() < MAX_ENTRIES,
        ensures
            final(self)@ == old(self)@.push(entry@),
            id.0 == old(self)@.len(),
    {
        let index = store_len(&self.entries);
        store_push(&mut self.entries, entry);
        assert(self@ =~= old(self)@.push(entry@));
        NodeId::new(index)
    }

    /// The entry of `id`.
    pub fn get_node(&self, id: NodeId) -> (entry: &AstRef<'a>)
        requires
            self.contains(id),
        ensures
            entry@ == self@[id.0 as int],
    {
        store_index(&self.entries, id.as_index())
    }

    /// The entry of `id`, for changing it in place. No other entry changes.
    pub fn get_node_mut(&mut self, id: NodeId) -> (entry: &mut AstRef<'a>)
        requires
            old(self).contains(id),
        ensures
            entry@ == old(self)@[id.0 as int],
            final(self)@ == old(self)@.update(id.0 as int, final(entry)@),
    {
        let ghost before = stored(self.entries);
        let entry = store_index_mut(&mut self.entries, id.as_index());
        proof {
            let after = before.update(id.0 as int, *final(entry));
            assert(Seq::new(after.len(), |i: int| after[i]@) =~= Seq::new(
                before.len(),
                |i: int| before[i]@,
            ).update(id.0 as int, final(entry)@));
        }
        entry
    }

    /// The structural edit: exchanges the operands of the binary expression
    /// `binary` and rewrites the parent tag of each operand, so that each
    /// reports the slot it has moved to.
    pub fn swap_operands(&mut self, binary: NodeId)
        requires
            well_formed(old(self)@),
            has_type(old(self)@, binary, AstType::Binary),
        ensures
            final(self)@ == swapped(old(self)@, binary),
            well_formed(final(self)@),
    {
        proof {
            assert(entry_linked(self@, binary));
            lemma_swapped_well_formed(self@, binary);
        }
        let node = self.get_node(binary).as_binary_unchecked();
        let left = self.get_node(node.left).as_expr_unchecked().target();
        let right = self.get_node(node.right).as_expr_unchecked().target();
        proof {
            assert(entry_linked(self@, node.left));
            assert(entry_linked(self@, node.right));
        }
        let parent = self.get_node_mut(binary).as_binary_mut_unchecked();
        std::mem::swap(&mut parent.left, &mut parent.right);
        self.get_node_mut(left).set_parent(ExpressionParent::BinaryExpressionRight(binary));
        self.get_node_mut(right).set_parent(ExpressionParent::BinaryExpressionLeft(binary));
    }

    /// Whether `id` is a handle of this arena and names an entry of kind `ty`.
    pub fn holds(&self, id: NodeId, ty: AstType) -> (held: bool)
        ensures
            held == has_type(self@, id, ty),
    {
        id.as_index() < self.len() && self.get_node(id).is(ty)
    }

    /// The expression entry under the statement `id`.
    pub fn statement_expression(&self, id: NodeId) -> (expression: NodeId)
        requires
            well_formed(self@),
            has_type(self@, id, AstType::Stmt),
        ensures
            at(self@, id) == AstKind::Stmt(Statement::ExpressionStatement(expression)),
            has_type(self@, expression, AstType::Expr),
            expression.0 < id.0,
    {
        proof {
            assert(entry_linked(self@, id));
        }
        match *self.get_node(id).as_stmt_unchecked() {
            Statement::ExpressionStatement(expression) => expression,
        }
    }

    /// What the expression entry `id` holds: the kind and the handle of the
    /// payload.
    pub fn expression(&self, id: NodeId) -> (expression: Expression)
        requires
            well_formed(self@),
            has_type(self@, id, AstType::Expr),
        ensures
            at(self@, id) == AstKind::Expr(expression),
            has_type(self@, expression.target(), expression.target_type()),
            expression.target().0 < id.0,
    {
        proof {
            assert(entry_linked(self@, id));
        }
        *self.get_node(id).as_expr_unchecked()
    }

    /// The two operand entries of the binary expression `id`, left first.
    pub fn operands(&self, id: NodeId) -> (operands: (NodeId, NodeId))
        requires
            well_formed(self@),
            has_type(self@, id, AstType::Binary),
        ensures
            operands.0 == at(self@, id)->Binary_0.left,
            operands.1 == at(self@, id)->Binary_0.right,
            has_type(self@, operands.0, AstType::Expr),
            has_type(self@, operands.1, AstType::Expr),
            operands.0.0 < id.0,
            operands.1.0 < id.0,
    {
        proof {
            assert(entry_linked(self@, id));
        }
        let node = self.get_node(id).as_binary_unchecked();
        (node.left, node.right)
    }

    /// The operand entry of the unary expression `id`.
    pub fn argument(&self, id: NodeId) -> (argument: NodeId)
        requires
            well_formed(self@),
            has_type(self@, id, AstType::Unary),
        ensures
            argument == at(self@, id)->Unary_0.argument,
            has_type(self@, argument, AstType::Expr),
            argument.0 < id.0,
    {
        proof {
            assert(entry_linked(self@, id));
        }
        self.get_node(id).as_unary_unchecked().argument
    }

    /// Whether the child link `child` of the entry `parent` is sound.
    fn child_is_linked(&self, parent: NodeId, child: NodeId, slot: ExpressionParent) -> (linked:
        bool)
        requires
            self.contains(parent),
        ensures
            linked == child_linked(self@, parent, child, slot),
    {
        if child.as_index() >= parent.as_index() {
            return false;
        }
        match self.get_node(child).as_expr() {
            None => false,
            Some(expression) => {
                let target = expression.target();
                if target.as_index() >= child.as_index() {
                    return false;
                }
                match self.get_node(target).parent() {
                    Some(tag) => tag == slot,
                    None => false,
                }
            },
        }
    }

    /// The handle in the field that `slot` names.
    fn field_of(&self, slot: ExpressionParent) -> (field: Option<NodeId>)
        ensures
            field == slot_field(self@, slot),
    {
        match slot {
            ExpressionParent::Root => None,
            ExpressionParent::ExpressionStatement(parent) => {
                if parent.as_index() >= self.len() {
                    return None;
                }
                match self.get_node(parent).as_stmt() {
                    Some(Statement::ExpressionStatement(expression)) => Some(*expression),
                    None => None,
                }
            },
            ExpressionParent::BinaryExpressionLeft(parent) => {
                if parent.as_index() >= self.len() {
                    return None;
                }
                match self.get_node(parent).as_binary() {
                    Some(node) => Some(node.left),
                    None => None,
                }
            },
            ExpressionParent::BinaryExpressionRight(parent) => {
                if parent.as_index() >= self.len() {
                    return None;
                }
                match self.get_node(parent).as_binary() {
                    Some(node) => Some(node.right),
                    None => None,
                }
            },
            ExpressionParent::UnaryExpression(parent) => {
                if parent.as_index() >= self.len() {
                    return None;
                }
                match self.get_node(parent).as_unary() {
                    Some(node) => Some(node.argument),
                    None => None,
                }
            },
        }
    }

    /// Whether the parent tag `tag` of the entry `id` is sound.
    fn parent_is_linked(&self, id: NodeId, tag: ExpressionParent) -> (linked: bool)
        ensures
            linked == parent_linked(self@, id, tag),
    {
        if matches!(tag, ExpressionParent::Root) {
            return true;
        }
        match self.field_of(tag) {
            None => false,
            Some(expression) => {
                if expression.as_index() >= self.len() {
                    return false;
                }
                match self.get_node(expression).as_expr() {
                    Some(expression) => expression.target() == id,
                    None => false,
                }
            },
        }
    }

    /// Whether every link of the entry `id` is sound.
    fn entry_is_linked(&self, id: NodeId) -> (linked: bool)
        requires
            self.contains(id),
        ensures
            linked == entry_linked(self@, id),
    {
        let entry = self.get_node(id);
        match entry.ast_type() {
            AstType::Stmt => match entry.as_stmt_unchecked() {
                Statement::ExpressionStatement(expression) => self.child_is_linked(
                    id,
                    *expression,
                    ExpressionParent::ExpressionStatement(id),
                ),
            },
            AstType::Expr => {
                let expression = entry.as_expr_unchecked();
                let target = expression.target();
                target.as_index() < id.as_index() && match expression {
                    Expression::StringLiteral(_) => self.get_node(target).is(AstType::Str),
                    Expression::Identifier(_) => self.get_node(target).is(AstType::Ident),
                    Expression::BinaryExpression(_) => self.get_node(target).is(AstType::Binary),
                    Expression::UnaryExpression(_) => self.get_node(target).is(AstType::Unary),
                }
            },
            AstType::Ident => self.parent_is_linked(id, entry.as_ident_unchecked().parent),
            AstType::Str => self.parent_is_linked(id, entry.as_str_unchecked().parent),
            AstType::Binary => {
                let node = entry.as_binary_unchecked();
                self.child_is_linked(id, node.left, ExpressionParent::BinaryExpressionLeft(id))
                    && self.child_is_linked(
                    id,
                    node.right,
                    ExpressionParent::BinaryExpressionRight(id),
                ) && self.parent_is_linked(id, node.parent)
            },
            AstType::Unary => {
                let node = entry.as_unary_unchecked();
                self.child_is_linked(id, node.argument, ExpressionParent::UnaryExpression(id))
                    && self.parent_is_linked(id, node.parent)
            },
        }
    }

    /// Looks for an inconsistency in the links between the entries and reports
    /// the first entry that has one. `None` means that the arena is well
    /// formed, which is what every traversal asks for.
    pub fn first_unlinked(&self) -> (broken: Option<NodeId>)
        ensures
            broken is None <==> well_formed(self@),
            broken matches Some(id) ==> self.contains(id) && !entry_linked(self@, id),
            broken matches Some(id) ==> forall|earlier: NodeId|
                earlier.0 < id.0 ==> entry_linked(self@, earlier),
    {
        let len = self.len();
        let mut index: usize = 0;
        while index < len
            invariant
                len == self@.len(),
                index <= len,
                forall|earlier: NodeId| earlier.0 < index ==> entry_linked(self@, earlier),
            decreases len - index,
        {
            let id = NodeId::new(index);
            if !self.entry_is_linked(id) {
                return Some(id);
            }
            index += 1;
        }
        None
    }
}

} // verus!
