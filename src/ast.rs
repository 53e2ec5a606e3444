//! The syntax tree of the scripting language.

use vstd::prelude::*;
use crate::lexer::{str_chars, string_from_chars};
use crate::codegen::decimal_digits;

verus! {

/// A whole program: its top-level statements in order.
#[derive(Debug)]
pub struct Program {
    pub statements: Vec<Statement>,
}

#[derive(Debug)]
pub enum Statement {
    VarDecl(VarDecl),
    FuncDecl(FuncDecl),
    ExprStmt(ExprStmt),
    IfStmt(IfStmt),
    WhileStmt(WhileStmt),
    ReturnStmt(ReturnStmt),
    Block(Block),
}

#[derive(Debug)]
pub enum Expression {
    Binary(BinaryExpr),
    Unary(UnaryExpr),
    Call(CallExpr),
    Assignment(AssignmentExpr),
    Variable(VariableExpr),
    Literal(LiteralExpr),
    MemberAccess(MemberAccessExpr),
    StorageAccess(StorageAccessExpr),
    MemoryAccess(MemoryAccessExpr),
    ArrayAccess(ArrayAccessExpr),
    MemoryAssignment(MemoryAssignmentExpr),
    StorageArrayAssignment(StorageArrayAssignmentExpr),
}

/// `let name = initializer;`
#[derive(Debug)]
pub struct VarDecl {
    pub name: String,
    pub initializer: Expression,
}

/// `function name(params) { body }`
#[derive(Debug)]
pub struct FuncDecl {
    pub name: String,
    pub params: Vec<String>,
    pub body: Block,
}

/// `expression;`
#[derive(Debug)]
pub struct ExprStmt {
    pub expression: Expression,
}

/// `if (condition) then_branch else else_branch`
#[derive(Debug)]
pub struct IfStmt {
    pub condition: Expression,
    pub then_branch: Box<Statement>,
    pub else_branch: Option<Box<Statement>>,
}

/// `while (condition) body`
#[derive(Debug)]
pub struct WhileStmt {
    pub condition: Expression,
    pub body: Box<Statement>,
}

/// `return value;`
#[derive(Debug)]
pub struct ReturnStmt {
    pub value: Option<Expression>,
}

/// `{ statements }`
#[derive(Debug)]
pub struct Block {
    pub statements: Vec<Statement>,
}

#[derive(Debug)]
pub struct BinaryExpr {
    pub left: Box<Expression>,
    pub operator: BinaryOperator,
    pub right: Box<Expression>,
}

#[derive(Debug, Clone, Copy, PartialEq, Eq, Structural)]
pub enum BinaryOperator {
    Add,
    Subtract,
    Multiply,
    Divide,
    Modulo,
    Equal,
    NotEqual,
    Greater,
    GreaterEqual,
    Less,
    LessEqual,
    And,
    Or,
}

#[derive(Debug)]
pub struct UnaryExpr {
    pub operator: UnaryOperator,
    pub operand: Box<Expression>,
}

#[derive(Debug, Clone, Copy, PartialEq, Eq, Structural)]
pub enum UnaryOperator {
    Minus,
    Not,
}

/// `callee(arguments)`
#[derive(Debug)]
pub struct CallExpr {
    pub callee: Box<Expression>,
    pub arguments: Vec<Expression>,
}

/// `name = value`
#[derive(Debug)]
pub struct AssignmentExpr {
    pub name: String,
    pub value: Box<Expression>,
}

#[derive(Debug)]
pub struct VariableExpr {
    pub name: String,
}

#[derive(Debug)]
pub enum LiteralExpr {
    Number(u64),
    Boolean(bool),
    String(String),
    Array(Vec<Expression>),
}

/// `object.property`
#[derive(Debug)]
pub struct MemberAccessExpr {
    pub object: Box<Expression>,
    pub property: String,
}

/// `storage.get(key)` or `storage.set(key, value)`
#[derive(Debug)]
pub enum StorageAccessExpr {
    Get(Box<Expression>),
    SetValue(Box<Expression>, Box<Expression>),
}

/// `memory.load(offset)` or `memory.store(offset, value)`
#[derive(Debug)]
pub enum MemoryAccessExpr {
    Load(Box<Expression>),
    Store(Box<Expression>, Box<Expression>),
}

/// `object[index]`
#[derive(Debug)]
pub struct ArrayAccessExpr {
    pub object: Box<Expression>,
    pub index: Box<Expression>,
}

/// `memory = value`
#[derive(Debug)]
pub struct MemoryAssignmentExpr {
    pub value: Box<Expression>,
}

/// `storage[index] = value`
#[derive(Debug)]
pub struct StorageArrayAssignmentExpr {
    pub index: Box<Expression>,
    pub value: Box<Expression>,
}

impl Expression {
    pub fn binary(left: Expression, operator: BinaryOperator, right: Expression) -> (r: Expression)
        ensures
            r == Expression::Binary(BinaryExpr { left: Box::new(left), operator, right: Box::new(right) }),
    {
        Expression::Binary(BinaryExpr { left: Box::new(left), operator, right: Box::new(right) })
    }

    pub fn unary(operator: UnaryOperator, operand: Expression) -> (r: Expression)
        ensures
            r == Expression::Unary(UnaryExpr { operator, operand: Box::new(operand) }),
    {
        Expression::Unary(UnaryExpr { operator, operand: Box::new(operand) })
    }

    pub fn call(callee: Expression, arguments: Vec<Expression>) -> (r: Expression)
        ensures
            r == Expression::Call(CallExpr { callee: Box::new(callee), arguments }),
    {
        Expression::Call(CallExpr { callee: Box::new(callee), arguments })
    }

    pub fn assignment(name: String, value: Expression) -> (r: Expression)
        ensures
            r == Expression::Assignment(AssignmentExpr { name, value: Box::new(value) }),
    {
        Expression::Assignment(AssignmentExpr { name, value: Box::new(value) })
    }

    pub fn variable(name: String) -> (r: Expression)
        ensures
            r == Expression::Variable(VariableExpr { name }),
    {
        Expression::Variable(VariableExpr { name })
    }

    pub fn number(value: u64) -> (r: Expression)
        ensures
            r == Expression::Literal(LiteralExpr::Number(value)),
    {
        Expression::Literal(LiteralExpr::Number(value))
    }

    pub fn boolean(value: bool) -> (r: Expression)
        ensures
            r == Expression::Literal(LiteralExpr::Boolean(value)),
    {
        Expression::Literal(LiteralExpr::Boolean(value))
    }

    pub fn string(value: String) -> (r: Expression)
        ensures
            r == Expression::Literal(LiteralExpr::String(value)),
    {
        Expression::Literal(LiteralExpr::String(value))
    }

    pub fn array(elements: Vec<Expression>) -> (r: Expression)
        ensures
            r == Expression::Literal(LiteralExpr::Array(elements)),
    {
        Expression::Literal(LiteralExpr::Array(elements))
    }

    pub fn array_access(object: Expression, index: Expression) -> (r: Expression)
        ensures
            r == Expression::ArrayAccess(ArrayAccessExpr { object: Box::new(object), index: Box::new(index) }),
    {
        Expression::ArrayAccess(ArrayAccessExpr { object: Box::new(object), index: Box::new(index) })
    }

    pub fn member_access(object: Expression, property: String) -> (r: Expression)
        ensures
            r == Expression::MemberAccess(MemberAccessExpr { object: Box::new(object), property }),
    {
        Expression::MemberAccess(MemberAccessExpr { object: Box::new(object), property })
    }

    pub fn memory_assignment(value: Expression) -> (r: Expression)
        ensures
            r == Expression::MemoryAssignment(MemoryAssignmentExpr { value: Box::new(value) }),
    {
        Expression::MemoryAssignment(MemoryAssignmentExpr { value: Box::new(value) })
    }

    pub fn storage_array_assignment(index: Expression, value: Expression) -> (r: Expression)
        ensures
            r == Expression::StorageArrayAssignment(
                StorageArrayAssignmentExpr { index: Box::new(index), value: Box::new(value) },
            ),
    {
        Expression::StorageArrayAssignment(
            StorageArrayAssignmentExpr { index: Box::new(index), value: Box::new(value) },
        )
    }
}

impl Statement {
    pub fn var_decl(name: String, initializer: Expression) -> (r: Statement)
        ensures
            r == Statement::VarDecl(VarDecl { name, initializer }),
    {
        Statement::VarDecl(VarDecl { name, initializer })
    }

    pub fn func_decl(name: String, params: Vec<String>, body: Block) -> (r: Statement)
        ensures
            r == Statement::FuncDecl(FuncDecl { name, params, body }),
    {
        Statement::FuncDecl(FuncDecl { name, params, body })
    }

    pub fn expr_stmt(expression: Expression) -> (r: Statement)
        ensures
            r == Statement::ExprStmt(ExprStmt { expression }),
    {
        Statement::ExprStmt(ExprStmt { expression })
    }

    pub fn if_stmt(condition: Expression, then_branch: Statement, else_branch: Option<Statement>) -> (r:
        Statement)
        ensures
            r is IfStmt,
            r->IfStmt_0.condition == condition,
            *r->IfStmt_0.then_branch == then_branch,
            r->IfStmt_0.else_branch is Some == else_branch is Some,
            else_branch is Some ==> *r->IfStmt_0.else_branch.unwrap() == else_branch.unwrap(),
    {
        let e = match else_branch {
            Some(s) => Some(Box::new(s)),
            None => None,
        };
        Statement::IfStmt(IfStmt { condition, then_branch: Box::new(then_branch), else_branch: e })
    }

    pub fn while_stmt(condition: Expression, body: Statement) -> (r: Statement)
        ensures
            r == Statement::WhileStmt(WhileStmt { condition, body: Box::new(body) }),
    {
        Statement::WhileStmt(WhileStmt { condition, body: Box::new(body) })
    }

    pub fn return_stmt(value: Option<Expression>) -> (r: Statement)
        ensures
            r == Statement::ReturnStmt(ReturnStmt { value }),
    {
        Statement::ReturnStmt(ReturnStmt { value })
    }

    pub fn block(statements: Vec<Statement>) -> (r: Statement)
        ensures
            r == Statement::Block(Block { statements }),
    {
        Statement::Block(Block { statements })
    }
}

/// `a` begins with `b`.
pub open spec fn starts_with(a: Seq<char>, b: Seq<char>) -> bool {
    b.len() <= a.len() && forall|i: int| 0 <= i < b.len() ==> #[trigger] a[i] == b[i]
}

/// Appends the characters of `s`.
fn push_str(out: &mut Vec<char>, s: &str)
    ensures
        final(out)@ == old(out)@ + s@,
{
    let v = str_chars(s);
    push_chars(out, &v);
}

fn push_chars(out: &mut Vec<char>, v: &Vec<char>)
    ensures
        final(out)@ == old(out)@ + v@,
{
    let mut i: usize = 0;
    while i < v.len()
        invariant
            i <= v@.len(),
            out@ == old(out)@ + v@.subrange(0, i as int),
        decreases v@.len() - i,
    {
        out.push(v[i]);
        i = i + 1;
        assert(out@ =~= old(out)@ + v@.subrange(0, i as int));
    }
    assert(v@.subrange(0, v@.len() as int) == v@);
}

fn push_string(out: &mut Vec<char>, s: &String)
    ensures
        final(out)@ == old(out)@ + s@,
{
    let v = str_chars(s.as_str());
    push_chars(out, &v);
}

fn push_number(out: &mut Vec<char>, n: u64)
    ensures
        old(out)@.len() < final(out)@.len(),
        starts_with(final(out)@, old(out)@),
{
    let digits = decimal_digits(n);
    let ghost start = out@;
    let mut i: usize = 0;
    while i < digits.len()
        invariant
            i <= digits@.len(),
            digits@.len() >= 1,
            out@.len() == start.len() + i,
            starts_with(out@, start),
            start == old(out)@,
        decreases digits@.len() - i,
    {
        out.push(digits[i] as char);
        i = i + 1;
    }
}

/// The symbol of a binary operator.
pub fn binary_operator_symbol(op: BinaryOperator) -> (r: &'static str)
    ensures
        r@.len() > 0,
{
    proof {
        reveal_strlit("+");
        reveal_strlit("-");
        reveal_strlit("*");
        reveal_strlit("/");
        reveal_strlit("%");
        reveal_strlit("==");
        reveal_strlit("!=");
        reveal_strlit(">");
        reveal_strlit(">=");
        reveal_strlit("<");
        reveal_strlit("<=");
        reveal_strlit("&&");
        reveal_strlit("||");
    }
    match op {
        BinaryOperator::Add => "+",
        BinaryOperator::Subtract => "-",
        BinaryOperator::Multiply => "*",
        BinaryOperator::Divide => "/",
        BinaryOperator::Modulo => "%",
        BinaryOperator::Equal => "==",
        BinaryOperator::NotEqual => "!=",
        BinaryOperator::Greater => ">",
        BinaryOperator::GreaterEqual => ">=",
        BinaryOperator::Less => "<",
        BinaryOperator::LessEqual => "<=",
        BinaryOperator::And => "&&",
        BinaryOperator::Or => "||",
    }
}

/// Appends `items` printed one by one and separated by `, `.
fn push_list(out: &mut Vec<char>, items: &Vec<Expression>)
    ensures
        starts_with(final(out)@, old(out)@),
    decreases items, 0int,
{
    let mut i: usize = 0;
    while i < items.len()
        invariant
            i <= items@.len(),
            starts_with(out@, old(out)@),
        decreases items@.len() - i,
    {
        if i > 0 {
            push_str(out, ", ");
        }
        push_expression(out, &items[i]);
        i = i + 1;
    }
}

/// Appends the source-like text of an expression, with binary and unary forms parenthesised.
fn push_expression(out: &mut Vec<char>, expr: &Expression)
    ensures
        starts_with(final(out)@, old(out)@),
    decreases expr, 1int,
{
    match expr {
        Expression::Binary(b) => {
            push_str(out, "(");
            push_expression(out, &b.left);
            push_str(out, " ");
            push_str(out, binary_operator_symbol(b.operator));
            push_str(out, " ");
            push_expression(out, &b.right);
            push_str(out, ")");
        },
        Expression::Unary(u) => {
            push_str(out, "(");
            match u.operator {
                UnaryOperator::Minus => push_str(out, "-"),
                UnaryOperator::Not => push_str(out, "!"),
            }
            push_expression(out, &u.operand);
            push_str(out, ")");
        },
        Expression::Call(c) => {
            push_expression(out, &c.callee);
            push_str(out, "(");
            push_list(out, &c.arguments);
            push_str(out, ")");
        },
        Expression::Assignment(a) => {
            push_string(out, &a.name);
            push_str(out, " = ");
            push_expression(out, &a.value);
        },
        Expression::Variable(v) => push_string(out, &v.name),
        Expression::Literal(lit) => match lit {
            LiteralExpr::Number(n) => push_number(out, *n),
            LiteralExpr::Boolean(b) => {
                if *b {
                    push_str(out, "true")
                } else {
                    push_str(out, "false")
                }
            },
            LiteralExpr::String(s) => {
                push_str(out, "\"");
                push_string(out, s);
                push_str(out, "\"");
            },
            LiteralExpr::Array(items) => {
                push_str(out, "[");
                push_list(out, items);
                push_str(out, "]");
            },
        },
        Expression::MemberAccess(m) => {
            push_expression(out, &m.object);
            push_str(out, ".");
            push_string(out, &m.property);
        },
        Expression::StorageAccess(sa) => match sa {
            StorageAccessExpr::Get(k) => {
                push_str(out, "storage.get(");
                push_expression(out, k);
                push_str(out, ")");
            },
            StorageAccessExpr::SetValue(k, v) => {
                push_str(out, "storage.set(");
                push_expression(out, k);
                push_str(out, ", ");
                push_expression(out, v);
                push_str(out, ")");
            },
        },
        Expression::MemoryAccess(ma) => match ma {
            MemoryAccessExpr::Load(o) => {
                push_str(out, "memory.load(");
                push_expression(out, o);
                push_str(out, ")");
            },
            MemoryAccessExpr::Store(o, v) => {
                push_str(out, "memory.store(");
                push_expression(out, o);
                push_str(out, ", ");
                push_expression(out, v);
                push_str(out, ")");
            },
        },
        Expression::ArrayAccess(aa) => {
            push_expression(out, &aa.object);
            push_str(out, "[");
            push_expression(out, &aa.index);
            push_str(out, "]");
        },
        Expression::MemoryAssignment(m) => {
            push_str(out, "memory = ");
            push_expression(out, &m.value);
        },
        Expression::StorageArrayAssignment(s) => {
            push_str(out, "storage[");
            push_expression(out, &s.index);
            push_str(out, "] = ");
            push_expression(out, &s.value);
        },
    }
}

/// Appends a one-line summary of a statement; nested statements are elided as `...`.
fn push_statement(out: &mut Vec<char>, stmt: &Statement)
    ensures
        starts_with(final(out)@, old(out)@),
{
    match stmt {
        Statement::VarDecl(v) => {
            push_str(out, "VarDecl { name: ");
            push_string(out, &v.name);
            push_str(out, ", initializer: ");
            push_expression(out, &v.initializer);
            push_str(out, " }");
        },
        Statement::FuncDecl(f) => {
            push_str(out, "FuncDecl { name: ");
            push_string(out, &f.name);
            push_str(out, ", params: [");
            let mut i: usize = 0;
            while i < f.params.len()
                invariant
                    i <= f.params@.len(),
                    starts_with(out@, old(out)@),
                decreases f.params@.len() - i,
            {
                if i > 0 {
                    push_str(out, ", ");
                }
                push_str(out, "\"");
                push_string(out, &f.params[i]);
                push_str(out, "\"");
                i = i + 1;
            }
            push_str(out, "], body: ... }");
        },
        Statement::ExprStmt(e) => {
            push_str(out, "ExprStmt { ");
            push_expression(out, &e.expression);
            push_str(out, " }");
        },
        Statement::IfStmt(i) => {
            push_str(out, "IfStmt { condition: ");
            push_expression(out, &i.condition);
            push_str(out, ", then: ..., else: ... }");
        },
        Statement::WhileStmt(w) => {
            push_str(out, "WhileStmt { condition: ");
            push_expression(out, &w.condition);
            push_str(out, ", body: ... }");
        },
        Statement::ReturnStmt(r) => {
            push_str(out, "ReturnStmt { value: ");
            match &r.value {
                Some(v) => {
                    push_str(out, "Some(");
                    push_expression(out, v);
                    push_str(out, ")");
                },
                None => push_str(out, "None"),
            }
            push_str(out, " }");
        },
        Statement::Block(_) => push_str(out, "Block { ... }"),
    }
}

/// A pretty-printer of programs, for debugging.
pub struct AstPrinter {
    indent_level: usize,
    output_buffer: String,
}

impl AstPrinter {
    /// The text of the last program printed.
    pub closed spec fn text(&self) -> Seq<char> {
        self.output_buffer@
    }

    pub fn new() -> (r: AstPrinter)
        ensures
            r.text() == Seq::<char>::empty(),
    {
        proof {
            reveal_strlit("");
        }
        AstPrinter { indent_level: 0, output_buffer: String::from_str("") }
    }

    /// Prints `Program {`, one indented line per top-level statement, and `}`; the text is
    /// also kept as the printer's output.
    pub fn print(&mut self, program: &Program) -> (r: String)
        ensures
            final(self).text() == r@,
            r@.len() >= 11,
            starts_with(r@, "Program {\n"@),
            r@.last() == '}',
            r@.len() >= 11 + 3 * program.statements@.len(),
            program.statements@.len() == 0 ==> r@ == "Program {\n}"@,
    {
        proof {
            reveal_strlit("Program {\n");
            reveal_strlit("Program {\n}");
        }
        let mut out: Vec<char> = Vec::new();
        push_str(&mut out, "Program {\n");
        let outer = self.indent_level;
        self.indent_level = if outer < 1000 { outer + 1 } else { 1000 };
        let mut i: usize = 0;
        while i < program.statements.len()
            invariant
                i <= program.statements@.len(),
                out@.len() >= 10,
                starts_with(out@, "Program {\n"@),
                i == 0 ==> out@ == "Program {\n"@,
                out@.len() >= 10 + 3 * i,
                self.indent_level >= 1,
                self.indent_level <= 1000,
            decreases program.statements@.len() - i,
        {
            let ind = self.indent();
            push_chars(&mut out, &ind);
            push_statement(&mut out, &program.statements[i]);
            out.push('\n');
            i = i + 1;
        }
        self.indent_level = outer;
        out.push('}');
        assert(program.statements@.len() == 0 ==> out@ =~= "Program {\n}"@);
        let text = string_from_chars(&out);
        self.output_buffer = string_from_chars(&out);
        text
    }

    /// The text of the last program printed.
    pub fn output(&self) -> (r: &str)
        ensures
            r@ == self.text(),
    {
        self.output_buffer.as_str()
    }

    /// Two spaces per indentation level.
    fn indent(&self) -> (r: Vec<char>)
        requires
            self.indent_level <= 1000,
        ensures
            r@.len() == 2 * self.indent_level,
            forall|i: int| 0 <= i < r@.len() ==> r@[i] == ' ',
    {
        let mut v: Vec<char> = Vec::new();
        let mut i: usize = 0;
        while i < self.indent_level
            invariant
                i <= self.indent_level,
                self.indent_level <= 1000,
                v@.len() == 2 * i,
                forall|k: int| 0 <= k < v@.len() ==> v@[k] == ' ',
            decreases self.indent_level - i,
        {
            v.push(' ');
            v.push(' ');
            i = i + 1;
        }
        v
    }
}

} // verus!
