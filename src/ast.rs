//! The syntax tree that the engine walks. Each token keeps its trivia
//! (whitespace and comments before and after it), so positions and blank lines
//! stay visible to the rules. Sequences separated by punctuation hold each item
//! with the separator after it, if any.
use vstd::prelude::*;
use crate::token::Token;

verus! {

/// A token with the trivia around it.
pub struct TokenRef {
    pub leading: Vec<Token>,
    pub token: Token,
    pub trailing: Vec<Token>,
}

/// A run of tokens that the engine carries through without looking inside:
/// a literal, a variable, or a statement that no rule observes.
pub struct TokenRun {
    pub tokens: Vec<TokenRef>,
}

pub struct Block {
    pub stmts: Vec<(Stmt, Option<TokenRef>)>,
    pub last_stmt: Option<(LastStmt, Option<TokenRef>)>,
}

pub enum LastStmt {
    Return(Return),
    Break(TokenRef),
}

pub struct Return {
    pub token: TokenRef,
    pub values: Vec<(Expression, Option<TokenRef>)>,
}

pub enum Expression {
    BinaryOperator { lhs: Box<Expression>, binop: TokenRef, rhs: Box<Expression> },
    Parentheses { open: TokenRef, close: TokenRef, expression: Box<Expression> },
    UnaryOperator { unop: TokenRef, expression: Box<Expression> },
    Value(Box<Term>),
}

pub enum Term {
    Function { token: TokenRef, body: FunctionBody },
    FunctionCall(FunctionCall),
    TableConstructor(TableConstructor),
    ParenthesesExpression(Expression),
    Atom(TokenRun),
}

pub struct FunctionCall {
    pub prefix: Prefix,
    pub suffixes: Vec<Suffix>,
}

pub enum Prefix {
    Expression(Expression),
    Name(TokenRef),
}

pub enum Suffix {
    Call(Call),
    Index(Index),
}

pub enum Call {
    AnonymousCall(FunctionArgs),
    MethodCall { colon: TokenRef, name: TokenRef, args: FunctionArgs },
}

pub enum Index {
    Brackets { open: TokenRef, close: TokenRef, expression: Expression },
    Dot { dot: TokenRef, name: TokenRef },
}

pub enum FunctionArgs {
    Parentheses { open: TokenRef, close: TokenRef, arguments: Vec<(Expression, Option<TokenRef>)> },
    TableConstructor(TableConstructor),
    String(TokenRef),
}

pub struct TableConstructor {
    pub open: TokenRef,
    pub close: TokenRef,
    pub fields: Vec<(Field, Option<TokenRef>)>,
}

#[allow(inconsistent_fields)]
pub enum Field {
    ExpressionKey { open: TokenRef, close: TokenRef, key: Expression, equal: TokenRef, value: Expression },
    NameKey { key: TokenRef, equal: TokenRef, value: Expression },
    NoKey(Expression),
}

pub enum Parameter {
    Name(TokenRef),
    Ellipse(TokenRef),
}

pub struct FunctionBody {
    pub open: TokenRef,
    pub close: TokenRef,
    pub parameters: Vec<(Parameter, Option<TokenRef>)>,
    pub block: Block,
    pub end_token: TokenRef,
}

pub struct FunctionName {
    pub names: Vec<(TokenRef, Option<TokenRef>)>,
    pub method: Option<(TokenRef, TokenRef)>,
}

pub struct FunctionDeclaration {
    pub function_token: TokenRef,
    pub name: FunctionName,
    pub body: FunctionBody,
}

pub struct LocalFunction {
    pub local_token: TokenRef,
    pub function_token: TokenRef,
    pub name: TokenRef,
    pub body: FunctionBody,
}

pub struct LocalAssignment {
    pub local_token: TokenRef,
    pub names: Vec<(TokenRef, Option<TokenRef>)>,
    pub equal_token: Option<TokenRef>,
    pub expressions: Vec<(Expression, Option<TokenRef>)>,
}

pub struct ElseIf {
    pub else_if_token: TokenRef,
    pub condition: Expression,
    pub then_token: TokenRef,
    pub block: Block,
}

pub struct If {
    pub if_token: TokenRef,
    pub condition: Expression,
    pub then_token: TokenRef,
    pub block: Block,
    pub else_if: Vec<ElseIf>,
    pub else_token: Option<TokenRef>,
    pub else_block: Option<Block>,
    pub end_token: TokenRef,
}

pub struct NumericFor {
    pub for_token: TokenRef,
    pub index_variable: TokenRef,
    pub equal_token: TokenRef,
    pub start: Expression,
    pub start_end_comma: TokenRef,
    pub end: Expression,
    pub end_step_comma: Option<TokenRef>,
    pub step: Option<Expression>,
    pub do_token: TokenRef,
    pub block: Block,
    pub end_token: TokenRef,
}

pub struct Repeat {
    pub repeat_token: TokenRef,
    pub block: Block,
    pub until_token: TokenRef,
    pub until: Expression,
}

pub struct While {
    pub while_token: TokenRef,
    pub condition: Expression,
    pub do_token: TokenRef,
    pub block: Block,
    pub end_token: TokenRef,
}

pub struct Goto {
    pub goto_token: TokenRef,
    pub label_name: TokenRef,
}

pub enum Stmt {
    Assignment(TokenRun),
    Do(TokenRun),
    FunctionCall(FunctionCall),
    FunctionDeclaration(FunctionDeclaration),
    GenericFor(TokenRun),
    If(If),
    LocalAssignment(LocalAssignment),
    LocalFunction(LocalFunction),
    NumericFor(NumericFor),
    Repeat(Repeat),
    While(While),
    Goto(Goto),
    Label(TokenRun),
}

/// A whole source: its top-level block and the end-of-file token.
pub struct Ast {
    pub nodes: Block,
    pub eof: TokenRef,
}

/// Whether a borrowed optional token is the given one.
pub open spec fn opt_ref_is(r: Option<&TokenRef>, o: Option<TokenRef>) -> bool {
    match r {
        Some(t) => o == Some(*t),
        None => o is None,
    }
}

/// The last token of an expression.
pub open spec fn expr_last(e: Expression) -> Option<TokenRef>
    decreases e,
{
    match e {
        Expression::BinaryOperator { rhs, .. } => expr_last(*rhs),
        Expression::Parentheses { close, .. } => Some(close),
        Expression::UnaryOperator { expression, .. } => expr_last(*expression),
        Expression::Value(v) => match *v {
            Term::Function { body, .. } => Some(body.end_token),
            Term::FunctionCall(c) => call_last(c),
            Term::TableConstructor(t) => Some(t.close),
            Term::ParenthesesExpression(inner) => expr_last(inner),
            Term::Atom(run) => run_last(run),
        },
    }
}

pub open spec fn run_last(run: TokenRun) -> Option<TokenRef> {
    if run.tokens@.len() > 0 {
        Some(run.tokens@.last())
    } else {
        None
    }
}

pub open spec fn args_last(a: FunctionArgs) -> Option<TokenRef> {
    match a {
        FunctionArgs::Parentheses { close, .. } => Some(close),
        FunctionArgs::TableConstructor(t) => Some(t.close),
        FunctionArgs::String(s) => Some(s),
    }
}

/// The last token of a call: that of its last suffix, or of its prefix.
pub open spec fn call_last(c: FunctionCall) -> Option<TokenRef>
    decreases c,
{
    if c.suffixes@.len() > 0 {
        match c.suffixes@.last() {
            Suffix::Call(Call::AnonymousCall(a)) => args_last(a),
            Suffix::Call(Call::MethodCall { args, .. }) => args_last(args),
            Suffix::Index(Index::Brackets { close, .. }) => Some(close),
            Suffix::Index(Index::Dot { name, .. }) => Some(name),
        }
    } else {
        match c.prefix {
            Prefix::Expression(e) => expr_last(e),
            Prefix::Name(n) => Some(n),
        }
    }
}

/// The last token of a statement.
pub open spec fn stmt_last(s: Stmt) -> Option<TokenRef> {
    match s {
        Stmt::Assignment(run) => run_last(run),
        Stmt::Do(run) => run_last(run),
        Stmt::FunctionCall(c) => call_last(c),
        Stmt::FunctionDeclaration(f) => Some(f.body.end_token),
        Stmt::GenericFor(run) => run_last(run),
        Stmt::If(i) => Some(i.end_token),
        Stmt::LocalAssignment(l) => if l.expressions@.len() > 0 {
            expr_last(l.expressions@.last().0)
        } else if l.names@.len() > 0 {
            Some(l.names@.last().0)
        } else {
            Some(l.local_token)
        },
        Stmt::LocalFunction(f) => Some(f.body.end_token),
        Stmt::NumericFor(f) => Some(f.end_token),
        Stmt::Repeat(r) => expr_last(r.until),
        Stmt::While(w) => Some(w.end_token),
        Stmt::Goto(g) => Some(g.label_name),
        Stmt::Label(run) => run_last(run),
    }
}

pub fn expression_last_token(e: &Expression) -> (r: Option<&TokenRef>)
    ensures
        opt_ref_is(r, expr_last(*e)),
    decreases e,
{
    match e {
        Expression::BinaryOperator { rhs, .. } => expression_last_token(rhs),
        Expression::Parentheses { close, .. } => Some(close),
        Expression::UnaryOperator { expression, .. } => expression_last_token(expression),
        Expression::Value(v) => match &**v {
            Term::Function { body, .. } => Some(&body.end_token),
            Term::FunctionCall(c) => call_last_token(c),
            Term::TableConstructor(t) => Some(&t.close),
            Term::ParenthesesExpression(inner) => expression_last_token(inner),
            Term::Atom(run) => run_last_token(run),
        },
    }
}

pub fn run_last_token(run: &TokenRun) -> (r: Option<&TokenRef>)
    ensures
        opt_ref_is(r, run_last(*run)),
{
    if run.tokens.len() > 0 {
        Some(&run.tokens[run.tokens.len() - 1])
    } else {
        None
    }
}

pub fn args_last_token(a: &FunctionArgs) -> (r: Option<&TokenRef>)
    ensures
        opt_ref_is(r, args_last(*a)),
{
    match a {
        FunctionArgs::Parentheses { close, .. } => Some(close),
        FunctionArgs::TableConstructor(t) => Some(&t.close),
        FunctionArgs::String(s) => Some(s),
    }
}

pub fn call_last_token(c: &FunctionCall) -> (r: Option<&TokenRef>)
    ensures
        opt_ref_is(r, call_last(*c)),
    decreases c,
{
    if c.suffixes.len() > 0 {
        match &c.suffixes[c.suffixes.len() - 1] {
            Suffix::Call(Call::AnonymousCall(a)) => args_last_token(a),
            Suffix::Call(Call::MethodCall { args, .. }) => args_last_token(args),
            Suffix::Index(Index::Brackets { close, .. }) => Some(close),
            Suffix::Index(Index::Dot { name, .. }) => Some(name),
        }
    } else {
        match &c.prefix {
            Prefix::Expression(e) => expression_last_token(e),
            Prefix::Name(n) => Some(n),
        }
    }
}

/// The last token of a statement.
pub fn stmt_last_token(s: &Stmt) -> (r: Option<&TokenRef>)
    ensures
        opt_ref_is(r, stmt_last(*s)),
{
    match s {
        Stmt::Assignment(run) => run_last_token(run),
        Stmt::Do(run) => run_last_token(run),
        Stmt::FunctionCall(c) => call_last_token(c),
        Stmt::FunctionDeclaration(f) => Some(&f.body.end_token),
        Stmt::GenericFor(run) => run_last_token(run),
        Stmt::If(i) => Some(&i.end_token),
        Stmt::LocalAssignment(l) => if l.expressions.len() > 0 {
            expression_last_token(&l.expressions[l.expressions.len() - 1].0)
        } else if l.names.len() > 0 {
            Some(&l.names[l.names.len() - 1].0)
        } else {
            Some(&l.local_token)
        },
        Stmt::LocalFunction(f) => Some(&f.body.end_token),
        Stmt::NumericFor(f) => Some(&f.end_token),
        Stmt::Repeat(r) => expression_last_token(&r.until),
        Stmt::While(w) => Some(&w.end_token),
        Stmt::Goto(g) => Some(&g.label_name),
        Stmt::Label(run) => run_last_token(run),
    }
}

} // verus!
