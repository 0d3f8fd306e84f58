//! A printer for finished trees: a visitor that only reads.

use crate::arena::Nodes;
use crate::ast::{AstKind, AstType, BinaryOperator, Expression, NodeId, UnaryOperator};
use crate::tree::{at, entry_linked, has_type, well_formed};
use crate::traverse::transform;
use crate::visit::{statement_expression, Visit};
use vstd::prelude::*;
use vstd::string::StringExecFns;

verus! {

/// How a unary operator is written: keywords are followed by one space.
pub open spec fn unary_operator_text(operator: UnaryOperator) -> Seq<char> {
    match operator {
        UnaryOperator::UnaryNegation => "-"@,
        UnaryOperator::UnaryPlus => "+"@,
        UnaryOperator::LogicalNot => "!"@,
        UnaryOperator::BitwiseNot => "~"@,
        UnaryOperator::Typeof => "typeof "@,
        UnaryOperator::Void => "void "@,
        UnaryOperator::Delete => "delete "@,
    }
}

/// How a binary operator is written, with the space on either side.
pub open spec fn binary_operator_text(operator: BinaryOperator) -> Seq<char> {
    match operator {
        BinaryOperator::Equality => " == "@,
        BinaryOperator::StrictEquality => " === "@,
    }
}

/// The text of the statement `id`.
pub open spec fn statement_text(nodes: Seq<AstKind<'_>>, id: NodeId) -> Seq<char> {
    expression_text(nodes, statement_expression(nodes, id))
}

/// The text of the expression entry `id`.
pub open spec fn expression_text(nodes: Seq<AstKind<'_>>, id: NodeId) -> Seq<char>
    decreases id.0,
{
    match at(nodes, id) {
        AstKind::Expr(Expression::Identifier(it)) => identifier_text(nodes, it),
        AstKind::Expr(Expression::StringLiteral(it)) => string_literal_text(nodes, it),
        AstKind::Expr(Expression::BinaryExpression(it)) => if it.0 < id.0 {
            binary_expression_text(nodes, it)
        } else {
            Seq::empty()
        },
        AstKind::Expr(Expression::UnaryExpression(it)) => if it.0 < id.0 {
            unary_expression_text(nodes, it)
        } else {
            Seq::empty()
        },
        _ => Seq::empty(),
    }
}

/// An identifier is written as its name.
pub open spec fn identifier_text(nodes: Seq<AstKind<'_>>, id: NodeId) -> Seq<char> {
    at(nodes, id)->Ident_0.name@
}

/// A string literal is written between single quotes.
pub open spec fn string_literal_text(nodes: Seq<AstKind<'_>>, id: NodeId) -> Seq<char> {
    "'"@ + at(nodes, id)->Str_0.value@ + "'"@
}

/// A binary expression is written as left operand, operator, right operand.
pub open spec fn binary_expression_text(nodes: Seq<AstKind<'_>>, id: NodeId) -> Seq<char>
    decreases id.0,
{
    match at(nodes, id) {
        AstKind::Binary(node) => if node.left.0 < id.0 && node.right.0 < id.0 {
            expression_text(nodes, node.left) + binary_operator_text(node.operator)
                + expression_text(nodes, node.right)
        } else {
            Seq::empty()
        },
        _ => Seq::empty(),
    }
}

/// A unary expression is written as operator, then operand.
pub open spec fn unary_expression_text(nodes: Seq<AstKind<'_>>, id: NodeId) -> Seq<char>
    decreases id.0,
{
    match at(nodes, id) {
        AstKind::Unary(node) => if node.argument.0 < id.0 {
            unary_operator_text(node.operator) + expression_text(nodes, node.argument)
        } else {
            Seq::empty()
        },
        _ => Seq::empty(),
    }
}

/// Writes a tree out as source text.
pub struct Printer {
    output: String,
}

impl Printer {
    /// What has been written so far.
    pub closed spec fn text(&self) -> Seq<char> {
        self.output@
    }

    /// The text of the statement `stmt`. The tree is left as it is.
    pub fn print<'a>(stmt: NodeId, nodes: &mut Nodes<'a>) -> (text: String)
        requires
            well_formed(old(nodes)@),
            has_type(old(nodes)@, stmt, AstType::Stmt),
        ensures
            text@ == statement_text(old(nodes)@, stmt),
            final(nodes)@ == old(nodes)@,
    {
        let mut printer = Printer { output: String::new() };
        transform(&mut printer, stmt, nodes);
        assert(printer.text() =~= statement_text(old(nodes)@, stmt));
        printer.output
    }

    /// Appends `s` to what has been written.
    fn output(&mut self, s: &str)
        ensures
            final(self).text() == old(self).text() + s@,
    {
        self.output.append(s);
    }
}

impl<'a> Visit<'a> for Printer {
    open spec fn visited_statement(
        &self,
        nodes: Seq<AstKind<'a>>,
        id: NodeId,
        end: &Self,
        result: Seq<AstKind<'a>>,
    ) -> bool {
        result == nodes && end.text() == self.text() + statement_text(nodes, id)
    }

    open spec fn visited_expression(
        &self,
        nodes: Seq<AstKind<'a>>,
        id: NodeId,
        end: &Self,
        result: Seq<AstKind<'a>>,
    ) -> bool {
        result == nodes && end.text() == self.text() + expression_text(nodes, id)
    }

    open spec fn visited_identifier_reference(
        &self,
        nodes: Seq<AstKind<'a>>,
        id: NodeId,
        end: &Self,
        result: Seq<AstKind<'a>>,
    ) -> bool {
        result == nodes && end.text() == self.text() + identifier_text(nodes, id)
    }

    open spec fn visited_string_literal(
        &self,
        nodes: Seq<AstKind<'a>>,
        id: NodeId,
        end: &Self,
        result: Seq<AstKind<'a>>,
    ) -> bool {
        result == nodes && end.text() == self.text() + string_literal_text(nodes, id)
    }

    open spec fn visited_binary_expression(
        &self,
        nodes: Seq<AstKind<'a>>,
        id: NodeId,
        end: &Self,
        result: Seq<AstKind<'a>>,
    ) -> bool {
        result == nodes && end.text() == self.text() + binary_expression_text(nodes, id)
    }

    open spec fn visited_unary_expression(
        &self,
        nodes: Seq<AstKind<'a>>,
        id: NodeId,
        end: &Self,
        result: Seq<AstKind<'a>>,
    ) -> bool {
        result == nodes && end.text() == self.text() + unary_expression_text(nodes, id)
    }

    fn visit_statement(&mut self, id: NodeId, nodes: &mut Nodes<'a>) {
        self.walk_statement(id, nodes)
    }

    fn walk_statement(&mut self, id: NodeId, nodes: &mut Nodes<'a>) {
        let expression = nodes.statement_expression(id);
        self.visit_expression(expression, nodes)
    }

    fn visit_expression(&mut self, id: NodeId, nodes: &mut Nodes<'a>)
        decreases id.0, 1nat,
    {
        proof {
            assert(entry_linked(nodes@, id));
        }
        self.walk_expression(id, nodes)
    }

    fn walk_expression(&mut self, id: NodeId, nodes: &mut Nodes<'a>)
        decreases id.0, 0nat,
    {
        match nodes.expression(id) {
            Expression::Identifier(it) => {
                self.visit_identifier_reference(it, nodes);
            },
            Expression::StringLiteral(it) => {
                self.visit_string_literal(it, nodes);
            },
            Expression::BinaryExpression(it) => {
                self.visit_binary_expression(it, nodes);
            },
            Expression::UnaryExpression(it) => {
                self.visit_unary_expression(it, nodes);
            },
        }
    }

    fn visit_identifier_reference(&mut self, id: NodeId, nodes: &mut Nodes<'a>) {
        let node = nodes.get_node(id).as_ident_unchecked();
        self.output(node.name);
    }

    fn visit_string_literal(&mut self, id: NodeId, nodes: &mut Nodes<'a>) {
        let node = nodes.get_node(id).as_str_unchecked();
        self.output("'");
        self.output(node.value);
        self.output("'");
        assert(self.text() =~= old(self).text() + string_literal_text(nodes@, id));
    }

    fn visit_binary_expression(&mut self, id: NodeId, nodes: &mut Nodes<'a>)
        decreases id.0, 1nat,
    {
        let (left, right) = nodes.operands(id);
        let operator = nodes.get_node(id).as_binary_unchecked().operator;
        self.visit_expression(left, nodes);
        self.output(
            match operator {
                BinaryOperator::Equality => " == ",
                BinaryOperator::StrictEquality => " === ",
            },
        );
        self.visit_expression(right, nodes);
        assert(self.text() =~= old(self).text() + binary_expression_text(nodes@, id));
    }

    fn walk_binary_expression(&mut self, id: NodeId, nodes: &mut Nodes<'a>)
        decreases id.0, 0nat,
    {
        let (left, right) = nodes.operands(id);
        self.visit_expression(left, nodes);
        let ghost middle = *self;
        let ghost between = nodes@;
        self.visit_expression(right, nodes);
        proof {
            assert(old(self).visited_expression(old(nodes)@, left, &middle, between));
            assert(middle.visited_expression(between, right, final(self), final(nodes)@));
        }
    }

    fn visit_unary_expression(&mut self, id: NodeId, nodes: &mut Nodes<'a>)
        decreases id.0, 1nat,
    {
        let argument = nodes.argument(id);
        match nodes.get_node(id).as_unary_unchecked().operator {
            UnaryOperator::UnaryNegation => self.output("-"),
            UnaryOperator::UnaryPlus => self.output("+"),
            UnaryOperator::LogicalNot => self.output("!"),
            UnaryOperator::BitwiseNot => self.output("~"),
            UnaryOperator::Typeof => self.output("typeof "),
            UnaryOperator::Void => self.output("void "),
            UnaryOperator::Delete => self.output("delete "),
        }
        self.visit_expression(argument, nodes);
        assert(self.text() =~= old(self).text() + unary_expression_text(nodes@, id));
    }

    fn walk_unary_expression(&mut self, id: NodeId, nodes: &mut Nodes<'a>)
        decreases id.0, 0nat,
    {
        let argument = nodes.argument(id);
        self.visit_expression(argument, nodes)
    }
}

} // verus!
