//! Node and parent-slot representation.
//!
//! Every node of a tree lives in one entry of an arena and is addressed by a
//! [`NodeId`]. Links between nodes are handles, never references, so a node can
//! name its parent without owning it.

use vstd::prelude::*;

verus! {

/// Handle of a node: the position of its entry in the arena that allocated it.
///
/// A handle carries no ownership and is meaningful only for that arena.
#[derive(Debug, Clone, Copy, PartialEq, Eq, Structural)]
pub struct NodeId(pub usize);

impl NodeId {
    /// The handle of the entry at `index`.
    #[inline(always)]
    pub fn new(index: usize) -> (id: Self)
        ensures
            id == NodeId(index),
    {
        Self(index)
    }

    /// The position of the entry that the handle names.
    #[inline(always)]
    pub fn as_index(self) -> (index: usize)
        ensures
            index == self.0,
    {
        self.0
    }
}

impl Default for NodeId {
    /// The handle of the first entry.
    fn default() -> (id: Self)
        ensures
            id == NodeId(0),
    {
        NodeId(0)
    }
}

/// A statement. The handle names the arena entry that holds the statement's
/// expression (an [`Expression`] entry).
#[derive(Debug, Clone, Copy, PartialEq, Eq, Structural)]
pub enum Statement {
    ExpressionStatement(NodeId),
}

/// An expression: the kind of the node, and the handle of the entry that holds
/// its payload.
#[derive(Debug, Clone, Copy, PartialEq, Eq, Structural)]
pub enum Expression {
    StringLiteral(NodeId),
    Identifier(NodeId),
    BinaryExpression(NodeId),
    UnaryExpression(NodeId),
}

/// The slot that a node occupies: which node is its parent, and which field of
/// that parent refers to it. `Root` marks a node that no slot refers to.
#[derive(Debug, Clone, Copy, PartialEq, Eq, Structural)]
pub enum ExpressionParent {
    Root,
    ExpressionStatement(NodeId),
    BinaryExpressionLeft(NodeId),
    BinaryExpressionRight(NodeId),
    UnaryExpression(NodeId),
}

/// A reference to an identifier, such as `foo`.
#[derive(Debug, Clone, Copy)]
pub struct IdentifierReference<'a> {
    pub name: &'a str,
    pub parent: ExpressionParent,
}

/// A string literal. `value` is what stands between the quotes.
#[derive(Debug, Clone, Copy)]
pub struct StringLiteral<'a> {
    pub value: &'a str,
    pub parent: ExpressionParent,
}

/// A binary expression. `left` and `right` name [`Expression`] entries.
#[derive(Debug, Clone, Copy)]
pub struct BinaryExpression {
    pub left: NodeId,
    pub operator: BinaryOperator,
    pub right: NodeId,
    pub parent: ExpressionParent,
}

/// The binary operators: `==` and `===`.
#[derive(Debug, Clone, Copy, PartialEq, Eq, Structural)]
pub enum BinaryOperator {
    Equality,
    StrictEquality,
}

/// A unary expression. `argument` names an [`Expression`] entry.
#[derive(Debug, Clone, Copy)]
pub struct UnaryExpression {
    pub operator: UnaryOperator,
    pub argument: NodeId,
    pub parent: ExpressionParent,
}

/// The unary operators: `-`, `+`, `!`, `~`, `typeof`, `void` and `delete`.
#[derive(Debug, Clone, Copy, PartialEq, Eq, Structural)]
pub enum UnaryOperator {
    UnaryNegation,
    UnaryPlus,
    LogicalNot,
    BitwiseNot,
    Typeof,
    Void,
    Delete,
}

/// The kind of an arena entry.
#[derive(Debug, Clone, Copy, PartialEq, Eq, Structural)]
pub enum AstType {
    Stmt,
    Expr,
    Ident,
    Str,
    Binary,
    Unary,
}

/// What an arena entry holds.
#[derive(Debug, Clone, Copy)]
pub enum AstKind<'a> {
    Stmt(Statement),
    Expr(Expression),
    Ident(IdentifierReference<'a>),
    Str(StringLiteral<'a>),
    Binary(BinaryExpression),
    Unary(UnaryExpression),
}

impl Expression {
    /// The handle of the entry that holds the payload.
    pub open spec fn spec_target(&self) -> NodeId {
        match self {
            Expression::StringLiteral(id) => *id,
            Expression::Identifier(id) => *id,
            Expression::BinaryExpression(id) => *id,
            Expression::UnaryExpression(id) => *id,
        }
    }

    /// The kind that the payload entry must have.
    pub open spec fn target_type(self) -> AstType {
        match self {
            Expression::StringLiteral(_) => AstType::Str,
            Expression::Identifier(_) => AstType::Ident,
            Expression::BinaryExpression(_) => AstType::Binary,
            Expression::UnaryExpression(_) => AstType::Unary,
        }
    }

    #[verifier::when_used_as_spec(spec_target)]
    pub fn target(&self) -> (id: NodeId)
        ensures
            id == self.spec_target(),
    {
        match self {
            Expression::StringLiteral(id) => *id,
            Expression::Identifier(id) => *id,
            Expression::BinaryExpression(id) => *id,
            Expression::UnaryExpression(id) => *id,
        }
    }
}

impl ExpressionParent {
    /// The parent node that the tag names, whatever the field.
    pub open spec fn node(self) -> Option<NodeId> {
        match self {
            ExpressionParent::Root => None,
            ExpressionParent::ExpressionStatement(id) => Some(id),
            ExpressionParent::BinaryExpressionLeft(id) => Some(id),
            ExpressionParent::BinaryExpressionRight(id) => Some(id),
            ExpressionParent::UnaryExpression(id) => Some(id),
        }
    }
}

impl<'a> AstKind<'a> {
    /// The kind of the entry.
    pub open spec fn type_of(&self) -> AstType {
        match self {
            AstKind::Stmt(_) => AstType::Stmt,
            AstKind::Expr(_) => AstType::Expr,
            AstKind::Ident(_) => AstType::Ident,
            AstKind::Str(_) => AstType::Str,
            AstKind::Binary(_) => AstType::Binary,
            AstKind::Unary(_) => AstType::Unary,
        }
    }

    /// The parent tag that the entry stores, for the kinds that store one.
    pub open spec fn parent(self) -> Option<ExpressionParent> {
        match self {
            AstKind::Ident(node) => Some(node.parent),
            AstKind::Str(node) => Some(node.parent),
            AstKind::Binary(node) => Some(node.parent),
            AstKind::Unary(node) => Some(node.parent),
            _ => None,
        }
    }

    /// The same entry with another parent tag. Entries that store no tag are
    /// returned as they are.
    pub open spec fn with_parent(self, parent: ExpressionParent) -> AstKind<'a> {
        match self {
            AstKind::Ident(node) => AstKind::Ident(
                IdentifierReference { name: node.name, parent },
            ),
            AstKind::Str(node) => AstKind::Str(StringLiteral { value: node.value, parent }),
            AstKind::Binary(node) => AstKind::Binary(
                BinaryExpression {
                    left: node.left,
                    operator: node.operator,
                    right: node.right,
                    parent,
                },
            ),
            AstKind::Unary(node) => AstKind::Unary(
                UnaryExpression { operator: node.operator, argument: node.argument, parent },
            ),
            _ => self,
        }
    }

    /// The kind of the entry.
    #[verifier::when_used_as_spec(type_of)]
    pub fn ast_type(&self) -> (ty: AstType)
        ensures
            ty == self.type_of(),
    {
        match self {
            AstKind::Stmt(_) => AstType::Stmt,
            AstKind::Expr(_) => AstType::Expr,
            AstKind::Ident(_) => AstType::Ident,
            AstKind::Str(_) => AstType::Str,
            AstKind::Binary(_) => AstType::Binary,
            AstKind::Unary(_) => AstType::Unary,
        }
    }
}

impl<'a> From<&AstKind<'a>> for AstType {
    /// The kind of the entry `kind`.
    fn from(kind: &AstKind<'a>) -> (ty: AstType) {
        kind.ast_type()
    }
}

impl<'a> vstd::std_specs::convert::FromSpecImpl<&AstKind<'a>> for AstType {
    open spec fn obeys_from_spec() -> bool {
        true
    }

    open spec fn from_spec(kind: &AstKind<'a>) -> AstType {
        kind.type_of()
    }
}

/// An arena entry. Reading it as a node of one kind is a checked operation.
#[derive(Debug, Clone, Copy)]
pub struct AstRef<'a> {
    inner: AstKind<'a>,
}

impl<'a> View for AstRef<'a> {
    type V = AstKind<'a>;

    closed spec fn view(&self) -> AstKind<'a> {
        self.inner
    }
}

impl<'a> AstRef<'a> {
    /// The kind of the entry.
    pub fn ast_type(&self) -> (ty: AstType)
        ensures
            ty == self@.type_of(),
    {
        self.inner.ast_type()
    }

    /// Whether the entry is of kind `ty`.
    #[inline]
    pub fn is(&self, ty: AstType) -> (same: bool)
        ensures
            same == (self@.type_of() == ty),
    {
        self.ast_type() == ty
    }

    // --------- narrowing, checked: `None` for an entry of another kind ---------

    pub fn as_stmt(&self) -> (node: Option<&Statement>)
        ensures
            node is Some <==> self@ is Stmt,
            node matches Some(stmt) ==> *stmt == self@->Stmt_0,
    {
        if self.is(AstType::Stmt) {
            Some(self.as_stmt_unchecked())
        } else {
            None
        }
    }

    pub fn as_expr(&self) -> (node: Option<&Expression>)
        ensures
            node is Some <==> self@ is Expr,
            node matches Some(expr) ==> *expr == self@->Expr_0,
    {
        if self.is(AstType::Expr) {
            Some(self.as_expr_unchecked())
        } else {
            None
        }
    }

    pub fn as_ident(&self) -> (node: Option<&IdentifierReference<'a>>)
        ensures
            node is Some <==> self@ is Ident,
            node matches Some(ident) ==> *ident == self@->Ident_0,
    {
        if self.is(AstType::Ident) {
            Some(self.as_ident_unchecked())
        } else {
            None
        }
    }

    pub fn as_str(&self) -> (node: Option<&StringLiteral<'a>>)
        ensures
            node is Some <==> self@ is Str,
            node matches Some(lit) ==> *lit == self@->Str_0,
    {
        if self.is(AstType::Str) {
            Some(self.as_str_unchecked())
        } else {
            None
        }
    }

    pub fn as_binary(&self) -> (node: Option<&BinaryExpression>)
        ensures
            node is Some <==> self@ is Binary,
            node matches Some(binary) ==> *binary == self@->Binary_0,
    {
        if self.is(AstType::Binary) {
            Some(self.as_binary_unchecked())
        } else {
            None
        }
    }

    pub fn as_unary(&self) -> (node: Option<&UnaryExpression>)
        ensures
            node is Some <==> self@ is Unary,
            node matches Some(unary) ==> *unary == self@->Unary_0,
    {
        if self.is(AstType::Unary) {
            Some(self.as_unary_unchecked())
        } else {
            None
        }
    }

    pub fn as_stmt_mut(&mut self) -> (node: Option<&mut Statement>)
        ensures
            node is Some <==> old(self)@ is Stmt,
            node matches Some(stmt) ==> *stmt == old(self)@->Stmt_0 && final(self)@
                == AstKind::Stmt(*final(stmt)),
            node is None ==> *final(self) == *old(self),
    {
        if self.is(AstType::Stmt) {
            Some(self.as_stmt_mut_unchecked())
        } else {
            None
        }
    }

    pub fn as_expr_mut(&mut self) -> (node: Option<&mut Expression>)
        ensures
            node is Some <==> old(self)@ is Expr,
            node matches Some(expr) ==> *expr == old(self)@->Expr_0 && final(self)@
                == AstKind::Expr(*final(expr)),
            node is None ==> *final(self) == *old(self),
    {
        if self.is(AstType::Expr) {
            Some(self.as_expr_mut_unchecked())
        } else {
            None
        }
    }

    pub fn as_ident_mut(&mut self) -> (node: Option<&mut IdentifierReference<'a>>)
        ensures
            node is Some <==> old(self)@ is Ident,
            node matches Some(ident) ==> *ident == old(self)@->Ident_0 && final(self)@
                == AstKind::Ident(*final(ident)),
            node is None ==> *final(self) == *old(self),
    {
        if self.is(AstType::Ident) {
            Some(self.as_ident_mut_unchecked())
        } else {
            None
        }
    }

    pub fn as_str_mut(&mut self) -> (node: Option<&mut StringLiteral<'a>>)
        ensures
            node is Some <==> old(self)@ is Str,
            node matches Some(lit) ==> *lit == old(self)@->Str_0 && final(self)@ == AstKind::Str(
                *final(lit),
            ),
            node is None ==> *final(self) == *old(self),
    {
        if self.is(AstType::Str) {
            Some(self.as_str_mut_unchecked())
        } else {
            None
        }
    }

    pub fn as_binary_mut(&mut self) -> (node: Option<&mut BinaryExpression>)
        ensures
            node is Some <==> old(self)@ is Binary,
            node matches Some(binary) ==> *binary == old(self)@->Binary_0 && final(self)@
                == AstKind::Binary(*final(binary)),
            node is None ==> *final(self) == *old(self),
    {
        if self.is(AstType::Binary) {
            Some(self.as_binary_mut_unchecked())
        } else {
            None
        }
    }

    pub fn as_unary_mut(&mut self) -> (node: Option<&mut UnaryExpression>)
        ensures
            node is Some <==> old(self)@ is Unary,
            node matches Some(unary) ==> *unary == old(self)@->Unary_0 && final(self)@
                == AstKind::Unary(*final(unary)),
            node is None ==> *final(self) == *old(self),
    {
        if self.is(AstType::Unary) {
            Some(self.as_unary_mut_unchecked())
        } else {
            None
        }
    }

    /// The parent tag that the entry stores, if its kind stores one.
    pub fn parent(&self) -> (tag: Option<ExpressionParent>)
        ensures
            tag == self@.parent(),
    {
        match &self.inner {
            AstKind::Ident(node) => Some(node.parent),
            AstKind::Str(node) => Some(node.parent),
            AstKind::Binary(node) => Some(node.parent),
            AstKind::Unary(node) => Some(node.parent),
            _ => None,
        }
    }

    /// Writes the parent tag of an entry whose kind stores one.
    pub fn set_parent(&mut self, parent: ExpressionParent)
        requires
            old(self)@.parent() is Some,
        ensures
            final(self)@ == old(self)@.with_parent(parent),
    {
        match &mut self.inner {
            AstKind::Ident(node) => {
                node.parent = parent;
            },
            AstKind::Str(node) => {
                node.parent = parent;
            },
            AstKind::Binary(node) => {
                node.parent = parent;
            },
            AstKind::Unary(node) => {
                node.parent = parent;
            },
            _ => {},
        }
    }

    // --------- narrowing to a kind that the caller has established ---------
    //
    // Code that Verus does not check and that asks for the wrong kind is stopped
    // by a panic.

    pub fn as_stmt_unchecked(&self) -> (stmt: &Statement)
        requires
            self@ is Stmt,
        ensures
            *stmt == self@->Stmt_0,
    {
        match &self.inner {
            AstKind::Stmt(stmt) => stmt,
            _ => unreached(),
        }
    }

    pub fn as_expr_unchecked(&self) -> (expr: &Expression)
        requires
            self@ is Expr,
        ensures
            *expr == self@->Expr_0,
    {
        match &self.inner {
            AstKind::Expr(expr) => expr,
            _ => unreached(),
        }
    }

    pub fn as_ident_unchecked(&self) -> (ident: &IdentifierReference<'a>)
        requires
            self@ is Ident,
        ensures
            *ident == self@->Ident_0,
    {
        match &self.inner {
            AstKind::Ident(ident) => ident,
            _ => unreached(),
        }
    }

    pub fn as_str_unchecked(&self) -> (lit: &StringLiteral<'a>)
        requires
            self@ is Str,
        ensures
            *lit == self@->Str_0,
    {
        match &self.inner {
            AstKind::Str(lit) => lit,
            _ => unreached(),
        }
    }

    pub fn as_binary_unchecked(&self) -> (binary: &BinaryExpression)
        requires
            self@ is Binary,
        ensures
            *binary == self@->Binary_0,
    {
        match &self.inner {
            AstKind::Binary(binary) => binary,
            _ => unreached(),
        }
    }

    pub fn as_unary_unchecked(&self) -> (unary: &UnaryExpression)
        requires
            self@ is Unary,
        ensures
            *unary == self@->Unary_0,
    {
        match &self.inner {
            AstKind::Unary(unary) => unary,
            _ => unreached(),
        }
    }

    pub fn as_stmt_mut_unchecked(&mut self) -> (stmt: &mut Statement)
        requires
            old(self)@ is Stmt,
        ensures
            *stmt == old(self)@->Stmt_0,
            final(self)@ == AstKind::Stmt(*final(stmt)),
    {
        match &mut self.inner {
            AstKind::Stmt(stmt) => stmt,
            _ => unreached(),
        }
    }

    pub fn as_expr_mut_unchecked(&mut self) -> (expr: &mut Expression)
        requires
            old(self)@ is Expr,
        ensures
            *expr == old(self)@->Expr_0,
            final(self)@ == AstKind::Expr(*final(expr)),
    {
        match &mut self.inner {
            AstKind::Expr(expr) => expr,
            _ => unreached(),
        }
    }

    pub fn as_ident_mut_unchecked(&mut self) -> (ident: &mut IdentifierReference<'a>)
        requires
            old(self)@ is Ident,
        ensures
            *ident == old(self)@->Ident_0,
            final(self)@ == AstKind::Ident(*final(ident)),
    {
        match &mut self.inner {
            AstKind::Ident(ident) => ident,
            _ => unreached(),
        }
    }

    pub fn as_str_mut_unchecked(&mut self) -> (lit: &mut StringLiteral<'a>)
        requires
            old(self)@ is Str,
        ensures
            *lit == old(self)@->Str_0,
            final(self)@ == AstKind::Str(*final(lit)),
    {
        match &mut self.inner {
            AstKind::Str(lit) => lit,
            _ => unreached(),
        }
    }

    pub fn as_binary_mut_unchecked(&mut self) -> (binary: &mut BinaryExpression)
        requires
            old(self)@ is Binary,
        ensures
            *binary == old(self)@->Binary_0,
            final(self)@ == AstKind::Binary(*final(binary)),
    {
        match &mut self.inner {
            AstKind::Binary(binary) => binary,
            _ => unreached(),
        }
    }

    pub fn as_unary_mut_unchecked(&mut self) -> (unary: &mut UnaryExpression)
        requires
            old(self)@ is Unary,
        ensures
            *unary == old(self)@->Unary_0,
            final(self)@ == AstKind::Unary(*final(unary)),
    {
        match &mut self.inner {
            AstKind::Unary(unary) => unary,
            _ => unreached(),
        }
    }
}

/// A node that can be placed in an arena entry.
pub trait AsAstRef<'a>: Sized {
    /// What the entry for this node holds.
    spec fn as_ast_kind(self) -> AstKind<'a>;

    fn as_ast_ref(self) -> (entry: AstRef<'a>)
        ensures
            entry@ == self.as_ast_kind(),
    ;
}

impl<'a> AsAstRef<'a> for Statement {
    open spec fn as_ast_kind(self) -> AstKind<'a> {
        AstKind::Stmt(self)
    }

    fn as_ast_ref(self) -> AstRef<'a> {
        AstRef { inner: AstKind::Stmt(self) }
    }
}

impl<'a> AsAstRef<'a> for Expression {
    open spec fn as_ast_kind(self) -> AstKind<'a> {
        AstKind::Expr(self)
    }

    fn as_ast_ref(self) -> AstRef<'a> {
        AstRef { inner: AstKind::Expr(self) }
    }
}

impl<'a> AsAstRef<'a> for IdentifierReference<'a> {
    open spec fn as_ast_kind(self) -> AstKind<'a> {
        AstKind::Ident(self)
    }

    fn as_ast_ref(self) -> AstRef<'a> {
        AstRef { inner: AstKind::Ident(self) }
    }
}

impl<'a> AsAstRef<'a> for StringLiteral<'a> {
    open spec fn as_ast_kind(self) -> AstKind<'a> {
        AstKind::Str(self)
    }

    fn as_ast_ref(self) -> AstRef<'a> {
        AstRef { inner: AstKind::Str(self) }
    }
}

impl<'a> AsAstRef<'a> for BinaryExpression {
    open spec fn as_ast_kind(self) -> AstKind<'a> {
        AstKind::Binary(self)
    }

    fn as_ast_ref(self) -> AstRef<'a> {
        AstRef { inner: AstKind::Binary(self) }
    }
}

impl<'a> AsAstRef<'a> for UnaryExpression {
    open spec fn as_ast_kind(self) -> AstKind<'a> {
        AstKind::Unary(self)
    }

    fn as_ast_ref(self) -> AstRef<'a> {
        AstRef { inner: AstKind::Unary(self) }
    }
}

} // verus!
