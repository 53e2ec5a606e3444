//! Recursive-descent parser from tokens to the syntax tree.

use vstd::prelude::*;
use vstd::string::*;
use crate::lexer::{Token, TokenType, kind_of, quoted_message, string_is, str_chars};
use crate::ast::{
    Program, Statement, Expression, Block, BinaryOperator, UnaryOperator, StorageAccessExpr,
    MemoryAccessExpr, LiteralExpr, ReturnStmt,
};

verus! {

/// A grammar violation, with the place of the token where it was found.
#[derive(Debug)]
pub struct ParseError {
    pub message: String,
    pub line: usize,
    pub column: usize,
}

/// A parser over one token sequence.
pub struct Parser {
    tokens: Vec<Token>,
    current: usize,
}

impl Parser {
    /// The position stays within the tokens.
    pub closed spec fn wf(&self) -> bool {
        self.current <= self.tokens@.len()
    }

    /// How many tokens have been consumed.
    pub closed spec fn position(&self) -> nat {
        self.current as nat
    }

    /// How many tokens there are.
    pub closed spec fn token_count(&self) -> nat {
        self.tokens@.len()
    }

    pub fn new(tokens: Vec<Token>) -> (r: Parser)
        ensures
            r.wf(),
            r.position() == 0,
            r.token_count() == tokens@.len(),
            tokens@.len() == 2 && tokens@[0].token_type is Number && tokens@[1].token_type is Eof ==> r.number_at(0)
                && r.number_expr(0) == Expression::Literal(LiteralExpr::Number(tokens@[0].token_type->Number_0)),
            tokens@.len() == 4 && tokens@[0].token_type is Return && tokens@[1].token_type is Number
                && tokens@[2].token_type is Semicolon && tokens@[3].token_type is Eof ==> r.return_number_at(0)
                && r.at_end(3) && r.return_number_stmt(0) == Statement::ReturnStmt(
                ReturnStmt { value: Some(Expression::Literal(LiteralExpr::Number(tokens@[1].token_type->Number_0))) },
            ),
    {
        Parser { tokens, current: 0 }
    }

    /// Parses declarations up to the end of the tokens.
    pub fn parse(&mut self) -> (r: Result<Program, ParseError>)
        requires
            old(self).wf(),
        ensures
            final(self).wf(),
            final(self).token_count() == old(self).token_count(),
            r is Ok ==> final(self).position() >= old(self).position(),
            r is Ok ==> final(self).at_end(final(self).position()),
            r is Ok && !old(self).at_end(old(self).position()) ==> r->Ok_0.statements@.len() >= 1,
            old(self).return_number_at(old(self).position()) && old(self).at_end(old(self).position() + 3)
                ==> r is Ok && r->Ok_0.statements@ == seq![old(self).return_number_stmt(old(self).position())],
    {
        let mut statements: Vec<Statement> = Vec::new();
        while !self.is_at_end(self.current)
            invariant
                self.wf(),
                self.tokens@ == old(self).tokens@,
                self.current >= old(self).current,
                statements@.len() == 0 ==> self.current == old(self).current,
                old(self).return_number_at(old(self).position()) && old(self).at_end(old(self).position() + 3)
                    ==> (statements@.len() == 0 || (statements@ == seq![old(self).return_number_stmt(
                    old(self).position(),
                )] && self.current == old(self).current + 3)),
            decreases self.tokens@.len() - self.current,
        {
            match self.declaration(self.current) {
                Ok((s, p)) => {
                    statements.push(s);
                    self.current = p;
                },
                Err(e) => {
                    return Err(e);
                },
            }
        }
        Ok(Program { statements })
    }

    /// Parses one expression at the current position and moves past it.
    pub fn expression(&mut self) -> (r: Result<Expression, ParseError>)
        requires
            old(self).wf(),
        ensures
            final(self).wf(),
            final(self).token_count() == old(self).token_count(),
            r is Ok ==> final(self).position() > old(self).position(),
            old(self).number_at(old(self).position()) ==> r == Ok::<Expression, ParseError>(
                old(self).number_expr(old(self).position()),
            ) && final(self).position() == old(self).position() + 1,
    {
        match self.expression_at(self.current) {
            Ok((e, p)) => {
                self.current = p;
                Ok(e)
            },
            Err(e) => Err(e),
        }
    }

    pub closed spec fn at_end(&self, pos: nat) -> bool {
        pos >= self.tokens@.len() || self.tokens@[pos as int].token_type is Eof
    }

    /// The token at `pos` ends an expression without continuing it: the end of the input, a
    /// closing bracket or brace, a comma or a semicolon.
    pub closed spec fn closes_at(&self, pos: nat) -> bool {
        self.at_end(pos) || {
            let t = self.tokens@[pos as int].token_type;
            t is RightParen || t is RightBracket || t is RightBrace || t is Comma || t is Semicolon
        }
    }

    /// A number token at `pos`, and the token after it ends the expression.
    pub closed spec fn number_at(&self, pos: nat) -> bool {
        !self.at_end(pos) && self.tokens@[pos as int].token_type is Number && self.closes_at(pos + 1)
    }

    /// `return N ;` at `pos`, for a number token `N`.
    pub closed spec fn return_number_at(&self, pos: nat) -> bool {
        &&& !self.at_end(pos) && self.tokens@[pos as int].token_type is Return
        &&& self.number_at(pos + 1)
        &&& !self.at_end(pos + 2) && self.tokens@[pos + 2int].token_type is Semicolon
    }

    /// The statement `return N;` for the number token at `pos + 1`.
    pub closed spec fn return_number_stmt(&self, pos: nat) -> Statement {
        Statement::ReturnStmt(ReturnStmt { value: Some(self.number_expr(pos + 1)) })
    }

    /// The literal of the number token at `pos`.
    pub closed spec fn number_expr(&self, pos: nat) -> Expression {
        Expression::Literal(LiteralExpr::Number(self.tokens@[pos as int].token_type->Number_0))
    }

    fn is_at_end(&self, pos: usize) -> (r: bool)
        ensures
            r == self.at_end(pos as nat),
            self.tokens@.len() <= usize::MAX,
    {
        pos >= self.tokens.len() || self.tokens[pos].token_type.same_kind(&TokenType::Eof)
    }

    fn check(&self, pos: usize, kind: &TokenType) -> (r: bool)
        ensures
            r == (!self.at_end(pos as nat) && kind_of(self.tokens@[pos as int].token_type)
                == kind_of(*kind)),
            self.tokens@.len() <= usize::MAX,
    {
        if self.is_at_end(pos) {
            false
        } else {
            self.tokens[pos].token_type.same_kind(kind)
        }
    }

    /// An error placed at the token at `pos`, or at the last token past the end.
    fn error_at(&self, pos: usize, message: &str) -> (r: ParseError)
        ensures
            r.message@ == message@,
    {
        let (line, column) = if self.is_at_end(pos) && pos > 0 && pos - 1 < self.tokens.len() {
            (self.tokens[pos - 1].line, self.tokens[pos - 1].column)
        } else if !self.is_at_end(pos) {
            (self.tokens[pos].line, self.tokens[pos].column)
        } else {
            (1, 1)
        };
        ParseError { message: String::from_str(message), line, column }
    }

    fn consume(&self, pos: usize, kind: &TokenType, message: &str) -> (r: Result<usize, ParseError>)
        requires
            pos <= self.tokens@.len(),
        ensures
            r is Ok ==> r->Ok_0 == pos + 1 && pos < self.tokens@.len(),
            r is Ok == (!self.at_end(pos as nat) && kind_of(self.tokens@[pos as int].token_type) == kind_of(*kind)),
    {
        if self.check(pos, kind) {
            Ok(pos + 1)
        } else {
            Err(self.error_at(pos, message))
        }
    }

    /// A name: an identifier, or `storage` / `memory` used as one.
    fn consume_identifier(&self, pos: usize, message: &str) -> (r: Result<(String, usize), ParseError>)
        requires
            pos <= self.tokens@.len(),
        ensures
            r is Ok ==> r->Ok_0.1 == pos + 1 && pos < self.tokens@.len(),
    {
        if self.is_at_end(pos) {
            return Err(self.error_at(pos, message));
        }
        match &self.tokens[pos].token_type {
            TokenType::Identifier(name) => Ok((name.clone(), pos + 1)),
            TokenType::Storage => Ok((String::from_str("storage"), pos + 1)),
            TokenType::Memory => Ok((String::from_str("memory"), pos + 1)),
            _ => Err(self.error_at(pos + 1, message)),
        }
    }

    fn declaration(&self, pos: usize) -> (r: Result<(Statement, usize), ParseError>)
        requires
            pos <= self.tokens@.len(),
        ensures
            r is Ok ==> pos < r->Ok_0.1 <= self.tokens@.len(),
            self.return_number_at(pos as nat) ==> r == Ok::<(Statement, usize), ParseError>(
                (self.return_number_stmt(pos as nat), (pos + 3) as usize),
            ),
        decreases self.tokens@.len() - pos, 14int,
    {
        if self.check(pos, &TokenType::Let) || self.check(pos, &TokenType::Const) {
            self.var_declaration(pos + 1)
        } else if self.check(pos, &TokenType::Function) {
            self.function_declaration(pos + 1)
        } else {
            self.statement(pos)
        }
    }

    fn var_declaration(&self, pos: usize) -> (r: Result<(Statement, usize), ParseError>)
        requires
            0 < pos <= self.tokens@.len(),
        ensures
            r is Ok ==> pos < r->Ok_0.1 <= self.tokens@.len(),
        decreases self.tokens@.len() - pos, 12int,
    {
        let (name, p) = self.consume_identifier(pos, "Expected variable name")?;
        if self.check(p, &TokenType::LeftBracket) {
            let (index, p) = self.expression_at(p + 1)?;
            let p = self.consume(p, &TokenType::RightBracket, "Expected ']' after array index")?;
            let p = self.consume(p, &TokenType::Equal, "Expected '=' after array declaration")?;
            let (value, p) = self.expression_at(p)?;
            let p = self.consume(p, &TokenType::Semicolon, "Expected ';' after array declaration")?;
            if string_is(&name, &['s', 't', 'o', 'r', 'a', 'g', 'e']) {
                Ok((Statement::expr_stmt(Expression::storage_array_assignment(index, value)), p))
            } else if string_is(&name, &['m', 'e', 'm', 'o', 'r', 'y']) {
                Ok(
                    (
                        Statement::expr_stmt(
                            Expression::MemoryAccess(MemoryAccessExpr::Store(Box::new(index), Box::new(value))),
                        ),
                        p,
                    ),
                )
            } else {
                Err(self.error_at(p, "Array declaration only supported for storage and memory"))
            }
        } else {
            let p = self.consume(p, &TokenType::Equal, "Expected '=' after variable name")?;
            let (initializer, p) = self.expression_at(p)?;
            let p = self.consume(p, &TokenType::Semicolon, "Expected ';' after variable declaration")?;
            Ok((Statement::var_decl(name, initializer), p))
        }
    }

    fn function_declaration(&self, pos: usize) -> (r: Result<(Statement, usize), ParseError>)
        requires
            0 < pos <= self.tokens@.len(),
        ensures
            r is Ok ==> pos < r->Ok_0.1 <= self.tokens@.len(),
        decreases self.tokens@.len() - pos, 16int,
    {
        let (name, p) = self.consume_identifier(pos, "Expected function name")?;
        let mut p = self.consume(p, &TokenType::LeftParen, "Expected '(' after function name")?;
        let mut params: Vec<String> = Vec::new();
        if !self.check(p, &TokenType::RightParen) {
            loop
                invariant
                    pos < p <= self.tokens@.len(),
                decreases self.tokens@.len() - p,
            {
                let (param, p_next) = self.consume_identifier(p, "Expected parameter name")?;
                params.push(param);
                p = p_next;
                if !self.check(p, &TokenType::Comma) {
                    break;
                }
                p = p + 1;
            }
        }
        let p = self.consume(p, &TokenType::RightParen, "Expected ')' after parameters")?;
        let p = self.consume(p, &TokenType::LeftBrace, "Expected '{' before function body")?;
        let (body, p) = self.block(p)?;
        Ok((Statement::func_decl(name, params, body), p))
    }

    fn statement(&self, pos: usize) -> (r: Result<(Statement, usize), ParseError>)
        requires
            pos <= self.tokens@.len(),
        ensures
            r is Ok ==> pos < r->Ok_0.1 <= self.tokens@.len(),
            self.return_number_at(pos as nat) ==> r == Ok::<(Statement, usize), ParseError>(
                (self.return_number_stmt(pos as nat), (pos + 3) as usize),
            ),
        decreases self.tokens@.len() - pos, 13int,
    {
        if self.check(pos, &TokenType::If) {
            self.if_statement(pos + 1)
        } else if self.check(pos, &TokenType::While) {
            self.while_statement(pos + 1)
        } else if self.check(pos, &TokenType::Return) {
            self.return_statement(pos + 1)
        } else if self.check(pos, &TokenType::LeftBrace) {
            let (b, p) = self.block(pos + 1)?;
            Ok((Statement::Block(b), p))
        } else {
            self.expression_statement(pos)
        }
    }

    fn if_statement(&self, pos: usize) -> (r: Result<(Statement, usize), ParseError>)
        requires
            0 < pos <= self.tokens@.len(),
        ensures
            r is Ok ==> pos < r->Ok_0.1 <= self.tokens@.len(),
        decreases self.tokens@.len() - pos, 12int,
    {
        let p = self.consume(pos, &TokenType::LeftParen, "Expected '(' after 'if'")?;
        let (condition, p) = self.expression_at(p)?;
        let p = self.consume(p, &TokenType::RightParen, "Expected ')' after if condition")?;
        let (then_branch, p) = self.statement(p)?;
        if self.check(p, &TokenType::Else) {
            let (else_branch, p) = self.statement(p + 1)?;
            Ok((Statement::if_stmt(condition, then_branch, Some(else_branch)), p))
        } else {
            Ok((Statement::if_stmt(condition, then_branch, None), p))
        }
    }

    fn while_statement(&self, pos: usize) -> (r: Result<(Statement, usize), ParseError>)
        requires
            0 < pos <= self.tokens@.len(),
        ensures
            r is Ok ==> pos < r->Ok_0.1 <= self.tokens@.len(),
        decreases self.tokens@.len() - pos, 12int,
    {
        let p = self.consume(pos, &TokenType::LeftParen, "Expected '(' after 'while'")?;
        let (condition, p) = self.expression_at(p)?;
        let p = self.consume(p, &TokenType::RightParen, "Expected ')' after while condition")?;
        let (body, p) = self.statement(p)?;
        Ok((Statement::while_stmt(condition, body), p))
    }

    fn return_statement(&self, pos: usize) -> (r: Result<(Statement, usize), ParseError>)
        requires
            0 < pos <= self.tokens@.len(),
        ensures
            r is Ok ==> pos <= r->Ok_0.1 <= self.tokens@.len(),
            self.number_at(pos as nat) && !self.at_end((pos + 1) as nat) && self.tokens@[pos + 1].token_type is Semicolon
                ==> r == Ok::<(Statement, usize), ParseError>(
                (Statement::ReturnStmt(ReturnStmt { value: Some(self.number_expr(pos as nat)) }), (pos + 2) as usize),
            ),
        decreases self.tokens@.len() - pos, 12int,
    {
        let (value, p) = if self.check(pos, &TokenType::Semicolon) {
            (None, pos)
        } else {
            let (e, p) = self.expression_at(pos)?;
            (Some(e), p)
        };
        let p = self.consume(p, &TokenType::Semicolon, "Expected ';' after return value")?;
        Ok((Statement::return_stmt(value), p))
    }

    fn block(&self, pos: usize) -> (r: Result<(Block, usize), ParseError>)
        requires
            0 < pos <= self.tokens@.len(),
        ensures
            r is Ok ==> pos < r->Ok_0.1 <= self.tokens@.len(),
        decreases self.tokens@.len() - pos, 15int,
    {
        let mut statements: Vec<Statement> = Vec::new();
        let mut p = pos;
        while !self.check(p, &TokenType::RightBrace) && !self.is_at_end(p)
            invariant
                pos <= p <= self.tokens@.len(),
            decreases self.tokens@.len() - p,
        {
            let (s, p_next) = self.declaration(p)?;
            statements.push(s);
            p = p_next;
        }
        let p = self.consume(p, &TokenType::RightBrace, "Expected '}' after block")?;
        Ok((Block { statements }, p))
    }

    fn expression_statement(&self, pos: usize) -> (r: Result<(Statement, usize), ParseError>)
        requires
            pos <= self.tokens@.len(),
        ensures
            r is Ok ==> pos < r->Ok_0.1 <= self.tokens@.len(),
        decreases self.tokens@.len() - pos, 12int,
    {
        let (e, p) = self.expression_at(pos)?;
        let p = self.consume(p, &TokenType::Semicolon, "Expected ';' after expression")?;
        Ok((Statement::expr_stmt(e), p))
    }

    fn expression_at(&self, pos: usize) -> (r: Result<(Expression, usize), ParseError>)
        requires
            pos <= self.tokens@.len(),
        ensures
            self.number_at(pos as nat) ==> r == Ok::<(Expression, usize), ParseError>((self.number_expr(pos as nat), (pos + 1) as usize)),
            r is Ok ==> pos < r->Ok_0.1 <= self.tokens@.len(),
        decreases self.tokens@.len() - pos, 10int,
    {
        self.assignment(pos)
    }

    /// `or ( "=" assignment )?`, rewriting the target into the matching assignment form.
    fn assignment(&self, pos: usize) -> (r: Result<(Expression, usize), ParseError>)
        requires
            pos <= self.tokens@.len(),
        ensures
            self.number_at(pos as nat) ==> r == Ok::<(Expression, usize), ParseError>((self.number_expr(pos as nat), (pos + 1) as usize)),
            r is Ok ==> pos < r->Ok_0.1 <= self.tokens@.len(),
        decreases self.tokens@.len() - pos, 9int,
    {
        let (expr, p) = self.or(pos)?;
        if !self.check(p, &TokenType::Equal) {
            return Ok((expr, p));
        }
        let (value, p) = self.assignment(p + 1)?;
        match expr {
            Expression::Variable(var) => {
                if string_is(&var.name, &['m', 'e', 'm', 'o', 'r', 'y']) {
                    Ok((Expression::memory_assignment(value), p))
                } else if string_is(&var.name, &['s', 't', 'o', 'r', 'a', 'g', 'e']) {
                    Err(self.error_at(p, "Invalid assignment target"))
                } else {
                    Ok((Expression::assignment(var.name, value), p))
                }
            },
            Expression::ArrayAccess(access) => {
                let object = *access.object;
                match object {
                    Expression::Variable(var) => {
                        if string_is(&var.name, &['s', 't', 'o', 'r', 'a', 'g', 'e']) {
                            Ok((Expression::storage_array_assignment(*access.index, value), p))
                        } else if string_is(&var.name, &['m', 'e', 'm', 'o', 'r', 'y']) {
                            Ok(
                                (
                                    Expression::MemoryAccess(
                                        MemoryAccessExpr::Store(access.index, Box::new(value)),
                                    ),
                                    p,
                                ),
                            )
                        } else {
                            Err(self.error_at(p, "Invalid assignment target"))
                        }
                    },
                    _ => Err(self.error_at(p, "Invalid assignment target")),
                }
            },
            _ => Err(self.error_at(p, "Invalid assignment target")),
        }
    }

    fn or(&self, pos: usize) -> (r: Result<(Expression, usize), ParseError>)
        requires
            pos <= self.tokens@.len(),
        ensures
            self.number_at(pos as nat) ==> r == Ok::<(Expression, usize), ParseError>((self.number_expr(pos as nat), (pos + 1) as usize)),
            r is Ok ==> pos < r->Ok_0.1 <= self.tokens@.len(),
        decreases self.tokens@.len() - pos, 8int,
    {
        let (mut expr, mut p) = self.and(pos)?;
        while self.check(p, &TokenType::PipePipe)
            invariant
                pos < p <= self.tokens@.len(),
                self.number_at(pos as nat) ==> p == pos + 1 && expr == self.number_expr(pos as nat),
            decreases self.tokens@.len() - p,
        {
            let (right, p_next) = self.and(p + 1)?;
            expr = Expression::binary(expr, BinaryOperator::Or, right);
            p = p_next;
        }
        Ok((expr, p))
    }

    fn and(&self, pos: usize) -> (r: Result<(Expression, usize), ParseError>)
        requires
            pos <= self.tokens@.len(),
        ensures
            self.number_at(pos as nat) ==> r == Ok::<(Expression, usize), ParseError>((self.number_expr(pos as nat), (pos + 1) as usize)),
            r is Ok ==> pos < r->Ok_0.1 <= self.tokens@.len(),
        decreases self.tokens@.len() - pos, 7int,
    {
        let (mut expr, mut p) = self.equality(pos)?;
        while self.check(p, &TokenType::AmpersandAmpersand)
            invariant
                pos < p <= self.tokens@.len(),
                self.number_at(pos as nat) ==> p == pos + 1 && expr == self.number_expr(pos as nat),
            decreases self.tokens@.len() - p,
        {
            let (right, p_next) = self.equality(p + 1)?;
            expr = Expression::binary(expr, BinaryOperator::And, right);
            p = p_next;
        }
        Ok((expr, p))
    }

    /// The binary operator of the given precedence level at `pos`, if there is one:
    /// 0 equality, 1 comparison, 2 additive, 3 multiplicative.
    fn binary_op_at(&self, pos: usize, level: u8) -> (r: Option<BinaryOperator>)
        ensures
            r is Some ==> !self.at_end(pos as nat),
            self.closes_at(pos as nat) ==> r is None,
            self.tokens@.len() <= usize::MAX,
    {
        if self.is_at_end(pos) {
            return None;
        }
        let t = &self.tokens[pos].token_type;
        match t {
            TokenType::BangEqual => if level == 0 { Some(BinaryOperator::NotEqual) } else { None },
            TokenType::EqualEqual => if level == 0 { Some(BinaryOperator::Equal) } else { None },
            TokenType::Greater => if level == 1 { Some(BinaryOperator::Greater) } else { None },
            TokenType::GreaterEqual => if level == 1 { Some(BinaryOperator::GreaterEqual) } else { None },
            TokenType::Less => if level == 1 { Some(BinaryOperator::Less) } else { None },
            TokenType::LessEqual => if level == 1 { Some(BinaryOperator::LessEqual) } else { None },
            TokenType::Minus => if level == 2 { Some(BinaryOperator::Subtract) } else { None },
            TokenType::Plus => if level == 2 { Some(BinaryOperator::Add) } else { None },
            TokenType::Slash => if level == 3 { Some(BinaryOperator::Divide) } else { None },
            TokenType::Star => if level == 3 { Some(BinaryOperator::Multiply) } else { None },
            TokenType::Percent => if level == 3 { Some(BinaryOperator::Modulo) } else { None },
            _ => None,
        }
    }

    fn equality(&self, pos: usize) -> (r: Result<(Expression, usize), ParseError>)
        requires
            pos <= self.tokens@.len(),
        ensures
            self.number_at(pos as nat) ==> r == Ok::<(Expression, usize), ParseError>((self.number_expr(pos as nat), (pos + 1) as usize)),
            r is Ok ==> pos < r->Ok_0.1 <= self.tokens@.len(),
        decreases self.tokens@.len() - pos, 6int,
    {
        let (mut expr, mut p) = self.comparison(pos)?;
        loop
            invariant
                pos < p <= self.tokens@.len(),
                self.number_at(pos as nat) ==> p == pos + 1 && expr == self.number_expr(pos as nat),
            decreases self.tokens@.len() - p,
        {
            match self.binary_op_at(p, 0) {
                Some(op) => {
                    let (right, p_next) = self.comparison(p + 1)?;
                    expr = Expression::binary(expr, op, right);
                    p = p_next;
                },
                None => {
                    break;
                },
            }
        }
        Ok((expr, p))
    }

    fn comparison(&self, pos: usize) -> (r: Result<(Expression, usize), ParseError>)
        requires
            pos <= self.tokens@.len(),
        ensures
            self.number_at(pos as nat) ==> r == Ok::<(Expression, usize), ParseError>((self.number_expr(pos as nat), (pos + 1) as usize)),
            r is Ok ==> pos < r->Ok_0.1 <= self.tokens@.len(),
        decreases self.tokens@.len() - pos, 5int,
    {
        let (mut expr, mut p) = self.term(pos)?;
        loop
            invariant
                pos < p <= self.tokens@.len(),
                self.number_at(pos as nat) ==> p == pos + 1 && expr == self.number_expr(pos as nat),
            decreases self.tokens@.len() - p,
        {
            match self.binary_op_at(p, 1) {
                Some(op) => {
                    let (right, p_next) = self.term(p + 1)?;
                    expr = Expression::binary(expr, op, right);
                    p = p_next;
                },
                None => {
                    break;
                },
            }
        }
        Ok((expr, p))
    }

    fn term(&self, pos: usize) -> (r: Result<(Expression, usize), ParseError>)
        requires
            pos <= self.tokens@.len(),
        ensures
            self.number_at(pos as nat) ==> r == Ok::<(Expression, usize), ParseError>((self.number_expr(pos as nat), (pos + 1) as usize)),
            r is Ok ==> pos < r->Ok_0.1 <= self.tokens@.len(),
        decreases self.tokens@.len() - pos, 4int,
    {
        let (mut expr, mut p) = self.factor(pos)?;
        loop
            invariant
                pos < p <= self.tokens@.len(),
                self.number_at(pos as nat) ==> p == pos + 1 && expr == self.number_expr(pos as nat),
            decreases self.tokens@.len() - p,
        {
            match self.binary_op_at(p, 2) {
                Some(op) => {
                    let (right, p_next) = self.factor(p + 1)?;
                    expr = Expression::binary(expr, op, right);
                    p = p_next;
                },
                None => {
                    break;
                },
            }
        }
        Ok((expr, p))
    }

    fn factor(&self, pos: usize) -> (r: Result<(Expression, usize), ParseError>)
        requires
            pos <= self.tokens@.len(),
        ensures
            self.number_at(pos as nat) ==> r == Ok::<(Expression, usize), ParseError>((self.number_expr(pos as nat), (pos + 1) as usize)),
            r is Ok ==> pos < r->Ok_0.1 <= self.tokens@.len(),
        decreases self.tokens@.len() - pos, 3int,
    {
        let (mut expr, mut p) = self.unary(pos)?;
        loop
            invariant
                pos < p <= self.tokens@.len(),
                self.number_at(pos as nat) ==> p == pos + 1 && expr == self.number_expr(pos as nat),
            decreases self.tokens@.len() - p,
        {
            match self.binary_op_at(p, 3) {
                Some(op) => {
                    let (right, p_next) = self.unary(p + 1)?;
                    expr = Expression::binary(expr, op, right);
                    p = p_next;
                },
                None => {
                    break;
                },
            }
        }
        Ok((expr, p))
    }

    fn unary(&self, pos: usize) -> (r: Result<(Expression, usize), ParseError>)
        requires
            pos <= self.tokens@.len(),
        ensures
            self.number_at(pos as nat) ==> r == Ok::<(Expression, usize), ParseError>((self.number_expr(pos as nat), (pos + 1) as usize)),
            r is Ok ==> pos < r->Ok_0.1 <= self.tokens@.len(),
            r is Ok && !self.at_end(pos as nat) && self.tokens@[pos as int].token_type is Bang ==> r->Ok_0.0
                is Unary && r->Ok_0.0->Unary_0.operator == UnaryOperator::Not,
            r is Ok && !self.at_end(pos as nat) && self.tokens@[pos as int].token_type is Minus ==> r->Ok_0.0
                is Unary && r->Ok_0.0->Unary_0.operator == UnaryOperator::Minus,
        decreases self.tokens@.len() - pos, 2int,
    {
        if self.check(pos, &TokenType::Bang) {
            let (operand, p) = self.unary(pos + 1)?;
            Ok((Expression::unary(UnaryOperator::Not, operand), p))
        } else if self.check(pos, &TokenType::Minus) {
            let (operand, p) = self.unary(pos + 1)?;
            Ok((Expression::unary(UnaryOperator::Minus, operand), p))
        } else {
            self.call(pos)
        }
    }

    /// A primary followed by any number of calls, indexings and member accesses.
    fn call(&self, pos: usize) -> (r: Result<(Expression, usize), ParseError>)
        requires
            pos <= self.tokens@.len(),
        ensures
            self.number_at(pos as nat) ==> r == Ok::<(Expression, usize), ParseError>((self.number_expr(pos as nat), (pos + 1) as usize)),
            r is Ok ==> pos < r->Ok_0.1 <= self.tokens@.len(),
        decreases self.tokens@.len() - pos, 1int,
    {
        let (mut expr, mut p) = self.primary(pos)?;
        loop
            invariant
                pos < p <= self.tokens@.len(),
                self.number_at(pos as nat) ==> p == pos + 1 && expr == self.number_expr(pos as nat),
            decreases self.tokens@.len() - p,
        {
            if self.check(p, &TokenType::LeftParen) {
                let (e, p_next) = self.finish_call(expr, p + 1)?;
                expr = e;
                p = p_next;
            } else if self.check(p, &TokenType::LeftBracket) {
                let (index, p_next) = self.expression_at(p + 1)?;
                let p_after = self.consume(p_next, &TokenType::RightBracket, "Expected ']' after array index")?;
                expr = Expression::array_access(expr, index);
                p = p_after;
            } else if self.check(p, &TokenType::Dot) {
                let (property, p_next) = self.consume_identifier(p + 1, "Expected property name after '.'")?;
                expr = Expression::member_access(expr, property);
                p = p_next;
            } else {
                break;
            }
        }
        Ok((expr, p))
    }

    /// The arguments of a call whose `(` was just consumed, and the closing `)`.
    fn finish_call(&self, callee: Expression, pos: usize) -> (r: Result<(Expression, usize), ParseError>)
        requires
            0 < pos <= self.tokens@.len(),
        ensures
            r is Ok ==> pos < r->Ok_0.1 <= self.tokens@.len(),
        decreases self.tokens@.len() - pos, 11int,
    {
        let mut arguments: Vec<Expression> = Vec::new();
        let mut p = pos;
        if !self.check(p, &TokenType::RightParen) {
            loop
                invariant
                    pos <= p <= self.tokens@.len(),
                decreases self.tokens@.len() - p,
            {
                let (arg, p_next) = self.expression_at(p)?;
                arguments.push(arg);
                p = p_next;
                if !self.check(p, &TokenType::Comma) {
                    break;
                }
                p = p + 1;
            }
        }
        let p = self.consume(p, &TokenType::RightParen, "Expected ')' after arguments")?;
        Ok((Expression::call(callee, arguments), p))
    }

    fn primary(&self, pos: usize) -> (r: Result<(Expression, usize), ParseError>)
        requires
            pos <= self.tokens@.len(),
        ensures
            self.number_at(pos as nat) ==> r == Ok::<(Expression, usize), ParseError>((self.number_expr(pos as nat), (pos + 1) as usize)),
            r is Ok ==> pos < r->Ok_0.1 <= self.tokens@.len(),
            !self.at_end(pos as nat) && self.tokens@[pos as int].token_type is Number ==> r
                is Ok && r->Ok_0.1 == pos + 1 && r->Ok_0.0 == Expression::Literal(
                LiteralExpr::Number(self.tokens@[pos as int].token_type->Number_0),
            ),
            self.at_end(pos as nat) ==> r is Err,
            !self.at_end(pos as nat) ==> ({
                let t = self.tokens@[pos as int].token_type;
                &&& t is True ==> r is Ok && r->Ok_0.1 == pos + 1 && r->Ok_0.0 == Expression::Literal(
                    LiteralExpr::Boolean(true),
                )
                &&& t is False ==> r is Ok && r->Ok_0.1 == pos + 1 && r->Ok_0.0 == Expression::Literal(
                    LiteralExpr::Boolean(false),
                )
                &&& t is Identifier ==> r is Ok && r->Ok_0.1 == pos + 1 && r->Ok_0.0 is Variable
                    && r->Ok_0.0->Variable_0.name@ == t->Identifier_0@
                &&& t is String ==> r is Ok && r->Ok_0.1 == pos + 1 && r->Ok_0.0 is Literal
                    && r->Ok_0.0->Literal_0 is String && r->Ok_0.0->Literal_0->String_0@
                    == t->String_0@
                &&& t is LeftParen && self.number_at((pos + 1) as nat) && !self.at_end((pos + 2) as nat)
                    && self.tokens@[pos + 2].token_type is RightParen ==> r == Ok::<(Expression, usize), ParseError>(
                    (self.number_expr((pos + 1) as nat), (pos + 3) as usize),
                )
                &&& t is Storage && !(!self.at_end((pos + 1) as nat) && self.tokens@[pos + 1].token_type is Dot)
                    ==> r is Ok && r->Ok_0.1 == pos + 1 && r->Ok_0.0 is Variable && r->Ok_0.0->Variable_0.name@
                    == "storage"@
                &&& t is Memory && !(!self.at_end((pos + 1) as nat) && self.tokens@[pos + 1].token_type is Dot)
                    ==> r is Ok && r->Ok_0.1 == pos + 1 && r->Ok_0.0 is Variable && r->Ok_0.0->Variable_0.name@
                    == "memory"@
                &&& !(t is True || t is False || t is Number || t is String || t is Identifier
                    || t is Storage || t is Memory || t is LeftParen || t is LeftBracket) ==> r is Err
            }),
        decreases self.tokens@.len() - pos, 0int,
    {
        if self.is_at_end(pos) {
            return Err(self.error_at(pos, "Unexpected end of input"));
        }
        let p = pos + 1;
        match &self.tokens[pos].token_type {
            TokenType::True => Ok((Expression::boolean(true), p)),
            TokenType::False => Ok((Expression::boolean(false), p)),
            TokenType::Number(n) => Ok((Expression::number(*n), p)),
            TokenType::String(s) => Ok((Expression::string(s.clone()), p)),
            TokenType::Identifier(name) => Ok((Expression::variable(name.clone()), p)),
            TokenType::Storage => {
                if self.check(p, &TokenType::Dot) {
                    self.handle_storage_method(p + 1)
                } else {
                    Ok((Expression::variable(String::from_str("storage")), p))
                }
            },
            TokenType::Memory => {
                if self.check(p, &TokenType::Dot) {
                    self.handle_memory_method(p + 1)
                } else {
                    Ok((Expression::variable(String::from_str("memory")), p))
                }
            },
            TokenType::LeftParen => {
                let (e, p_next) = self.expression_at(p)?;
                let p_after = self.consume(p_next, &TokenType::RightParen, "Expected ')' after expression")?;
                Ok((e, p_after))
            },
            TokenType::LeftBracket => {
                let mut elements: Vec<Expression> = Vec::new();
                let mut q = p;
                if !self.check(q, &TokenType::RightBracket) {
                    loop
                        invariant
                            p <= q <= self.tokens@.len(),
                            pos < p,
                            pos < self.tokens@.len(),
                            self.tokens@[pos as int].token_type is LeftBracket,
                        decreases self.tokens@.len() - q,
                    {
                        let (e, q_next) = self.expression_at(q)?;
                        elements.push(e);
                        q = q_next;
                        if !self.check(q, &TokenType::Comma) {
                            break;
                        }
                        q = q + 1;
                    }
                }
                if !self.check(q, &TokenType::RightBracket) {
                    return Err(self.error_at(q, "Expected ']' after array elements"));
                }
                Ok((Expression::array(elements), q + 1))
            },
            _ => Err(self.error_at(p, "Expected expression")),
        }
    }

    /// `storage.get(key)` or `storage.set(key, value)`, after the dot.
    fn handle_storage_method(&self, pos: usize) -> (r: Result<(Expression, usize), ParseError>)
        requires
            0 < pos <= self.tokens@.len(),
        ensures
            r is Ok ==> pos < r->Ok_0.1 <= self.tokens@.len(),
            self.at_end(pos as nat) ==> r is Err,
            !self.at_end(pos as nat) && !(self.tokens@[pos as int].token_type is Identifier) ==> r is Err,
            !self.at_end(pos as nat) && self.tokens@[pos as int].token_type is Identifier && self.tokens@[pos as int].token_type->Identifier_0@
                != seq!['g', 'e', 't'] && self.tokens@[pos as int].token_type->Identifier_0@ != seq!['s', 'e', 't'] ==> r is Err,
            ({
                &&& !self.at_end(pos as nat) && self.tokens@[pos as int].token_type is Identifier
                &&& self.tokens@[pos as int].token_type->Identifier_0@ == seq!['g', 'e', 't']
                &&& !self.at_end((pos + 1) as nat) && self.tokens@[pos + 1].token_type is LeftParen
                &&& self.number_at((pos + 2) as nat) && !self.at_end((pos + 3) as nat) && self.tokens@[pos + 3].token_type is RightParen
            }) ==> r == Ok::<(Expression, usize), ParseError>(
                (Expression::StorageAccess(StorageAccessExpr::Get(Box::new(self.number_expr((pos + 2) as nat)))), (pos + 4) as usize),
            ),
            ({
                &&& !self.at_end(pos as nat) && self.tokens@[pos as int].token_type is Identifier
                &&& self.tokens@[pos as int].token_type->Identifier_0@ == seq!['s', 'e', 't']
                &&& !self.at_end((pos + 1) as nat) && self.tokens@[pos + 1].token_type is LeftParen
                &&& self.number_at((pos + 2) as nat) && !self.at_end((pos + 3) as nat) && self.tokens@[pos + 3].token_type is Comma
                &&& self.number_at((pos + 4) as nat) && !self.at_end((pos + 5) as nat) && self.tokens@[pos + 5].token_type is RightParen
            }) ==> r == Ok::<(Expression, usize), ParseError>(
                (
                    Expression::StorageAccess(StorageAccessExpr::SetValue(Box::new(self.number_expr((pos + 2) as nat)), Box::new(self.number_expr((pos + 4) as nat)))),
                    (pos + 6) as usize,
                ),
            ),
        decreases self.tokens@.len() - pos, 11int,
    {
        if self.is_at_end(pos) {
            return Err(ParseError { message: String::from_str("Unexpected end of input after 'storage.'"), line: 0, column: 0 });
        }
        let token = &self.tokens[pos];
        match &token.token_type {
            TokenType::Identifier(method) => {
                if string_is(method, &['g', 'e', 't']) {
                    let p = self.consume(pos + 1, &TokenType::LeftParen, "Expected '(' after 'get'")?;
                    let (key, p) = self.expression_at(p)?;
                    let p = self.consume(p, &TokenType::RightParen, "Expected ')' after key")?;
                    Ok((Expression::StorageAccess(StorageAccessExpr::Get(Box::new(key))), p))
                } else if string_is(method, &['s', 'e', 't']) {
                    let p = self.consume(pos + 1, &TokenType::LeftParen, "Expected '(' after 'set'")?;
                    let (key, p) = self.expression_at(p)?;
                    let p = self.consume(p, &TokenType::Comma, "Expected ',' after key")?;
                    let (value, p) = self.expression_at(p)?;
                    let p = self.consume(p, &TokenType::RightParen, "Expected ')' after value")?;
                    Ok((Expression::StorageAccess(StorageAccessExpr::SetValue(Box::new(key), Box::new(value))), p))
                } else {
                    let name = str_chars(method.as_str());
                    Err(ParseError { message: quoted_message("Unknown storage method '", &name), line: token.line, column: token.column })
                }
            },
            _ => Err(ParseError { message: String::from_str("Expected method name after 'storage.'"), line: token.line, column: token.column }),
        }
    }

    /// `memory.load(offset)` or `memory.store(offset, value)`, after the dot.
    fn handle_memory_method(&self, pos: usize) -> (r: Result<(Expression, usize), ParseError>)
        requires
            0 < pos <= self.tokens@.len(),
        ensures
            r is Ok ==> pos < r->Ok_0.1 <= self.tokens@.len(),
            self.at_end(pos as nat) ==> r is Err,
            !self.at_end(pos as nat) && !(self.tokens@[pos as int].token_type is Identifier) ==> r is Err,
            !self.at_end(pos as nat) && self.tokens@[pos as int].token_type is Identifier && self.tokens@[pos as int].token_type->Identifier_0@
                != seq!['l', 'o', 'a', 'd'] && self.tokens@[pos as int].token_type->Identifier_0@ != seq!['s', 't', 'o', 'r', 'e'] ==> r is Err,
            ({
                &&& !self.at_end(pos as nat) && self.tokens@[pos as int].token_type is Identifier
                &&& self.tokens@[pos as int].token_type->Identifier_0@ == seq!['l', 'o', 'a', 'd']
                &&& !self.at_end((pos + 1) as nat) && self.tokens@[pos + 1].token_type is LeftParen
                &&& self.number_at((pos + 2) as nat) && !self.at_end((pos + 3) as nat) && self.tokens@[pos + 3].token_type is RightParen
            }) ==> r == Ok::<(Expression, usize), ParseError>(
                (Expression::MemoryAccess(MemoryAccessExpr::Load(Box::new(self.number_expr((pos + 2) as nat)))), (pos + 4) as usize),
            ),
            ({
                &&& !self.at_end(pos as nat) && self.tokens@[pos as int].token_type is Identifier
                &&& self.tokens@[pos as int].token_type->Identifier_0@ == seq!['s', 't', 'o', 'r', 'e']
                &&& !self.at_end((pos + 1) as nat) && self.tokens@[pos + 1].token_type is LeftParen
                &&& self.number_at((pos + 2) as nat) && !self.at_end((pos + 3) as nat) && self.tokens@[pos + 3].token_type is Comma
                &&& self.number_at((pos + 4) as nat) && !self.at_end((pos + 5) as nat) && self.tokens@[pos + 5].token_type is RightParen
            }) ==> r == Ok::<(Expression, usize), ParseError>(
                (
                    Expression::MemoryAccess(MemoryAccessExpr::Store(Box::new(self.number_expr((pos + 2) as nat)), Box::new(self.number_expr((pos + 4) as nat)))),
                    (pos + 6) as usize,
                ),
            ),
        decreases self.tokens@.len() - pos, 11int,
    {
        if self.is_at_end(pos) {
            return Err(ParseError { message: String::from_str("Unexpected end of input after 'memory.'"), line: 0, column: 0 });
        }
        let token = &self.tokens[pos];
        match &token.token_type {
            TokenType::Identifier(method) => {
                if string_is(method, &['l', 'o', 'a', 'd']) {
                    let p = self.consume(pos + 1, &TokenType::LeftParen, "Expected '(' after 'load'")?;
                    let (offset, p) = self.expression_at(p)?;
                    let p = self.consume(p, &TokenType::RightParen, "Expected ')' after offset")?;
                    Ok((Expression::MemoryAccess(MemoryAccessExpr::Load(Box::new(offset))), p))
                } else if string_is(method, &['s', 't', 'o', 'r', 'e']) {
                    let p = self.consume(pos + 1, &TokenType::LeftParen, "Expected '(' after 'store'")?;
                    let (offset, p) = self.expression_at(p)?;
                    let p = self.consume(p, &TokenType::Comma, "Expected ',' after offset")?;
                    let (value, p) = self.expression_at(p)?;
                    let p = self.consume(p, &TokenType::RightParen, "Expected ')' after value")?;
                    Ok((Expression::MemoryAccess(MemoryAccessExpr::Store(Box::new(offset), Box::new(value))), p))
                } else {
                    let name = str_chars(method.as_str());
                    Err(ParseError { message: quoted_message("Unknown memory method '", &name), line: token.line, column: token.column })
                }
            },
            _ => Err(ParseError { message: String::from_str("Expected method name after 'memory.'"), line: token.line, column: token.column }),
        }
    }
}

} // verus!
