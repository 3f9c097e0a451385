//! The walk over the syntax tree. Each node kind with hooks is handed to the
//! enter callbacks, its children are walked in source order, and the node is
//! handed to the leave callbacks; tokens are offered to the `TokenRef`
//! callbacks as they are met. The walk reads the tree in place: what it does
//! is exactly the sequence of dispatches that the `walk_*` spec functions
//! below describe, depth first, in source order.
use vstd::prelude::*;
use crate::ast::{
    Ast, Block, Call, ElseIf, Expression, Field, FunctionArgs, FunctionBody, FunctionCall,
    FunctionDeclaration, FunctionName, Goto, If, Index, LastStmt, LocalAssignment, LocalFunction,
    NumericFor, Parameter, Prefix, Repeat, Return, Stmt, Suffix, TableConstructor, Term, TokenRef,
    While,
};
use crate::lint::Linter;
use crate::node::{NodeKey, NodeWrapper, WalkTy};
use crate::registry::{Contexts, Tables, hooks};

verus! {

pub open spec fn walk_token(t: Tables, c: Contexts, x: TokenRef) -> Contexts {
    hooks(t, c, NodeKey::TokenRef, WalkTy::Enter, NodeWrapper::TokenRef(&x))
}

pub open spec fn walk_opt_token(t: Tables, c: Contexts, x: Option<TokenRef>) -> Contexts {
    match x {
        Some(x) => walk_token(t, c, x),
        None => c,
    }
}

/// Tokens with their separators: each token, then its separator.
pub open spec fn walk_token_list(t: Tables, c: Contexts, s: Seq<(TokenRef, Option<TokenRef>)>) -> Contexts
    decreases s.len(),
{
    if s.len() == 0 {
        c
    } else {
        walk_opt_token(t, walk_token(t, walk_token_list(t, c, s.drop_last()), s.last().0), s.last().1)
    }
}

/// Parameters: each parameter's token; separators are not offered.
pub open spec fn walk_params(t: Tables, c: Contexts, s: Seq<(Parameter, Option<TokenRef>)>) -> Contexts
    decreases s.len(),
{
    if s.len() == 0 {
        c
    } else {
        let c1 = walk_params(t, c, s.drop_last());
        match s.last().0 {
            Parameter::Name(x) => walk_token(t, c1, x),
            Parameter::Ellipse(x) => walk_token(t, c1, x),
        }
    }
}

pub open spec fn walk_block(t: Tables, c: Contexts, b: Block) -> Contexts
    decreases b,
{
    let c1 = hooks(t, c, NodeKey::Block, WalkTy::Enter, NodeWrapper::Block(&b));
    let c2 = walk_stmts(t, c1, b.stmts@);
    let c3 = match b.last_stmt {
        Some(p) => walk_last(t, c2, p.0),
        None => c2,
    };
    hooks(t, c3, NodeKey::Block, WalkTy::Leave, NodeWrapper::Block(&b))
}

/// Statements in order; the semicolons after them are not offered.
pub open spec fn walk_stmts(t: Tables, c: Contexts, s: Seq<(Stmt, Option<TokenRef>)>) -> Contexts
    decreases s,
{
    if s.len() == 0 {
        c
    } else {
        walk_stmt(t, walk_stmts(t, c, s.drop_last()), s.last().0)
    }
}

pub open spec fn walk_last(t: Tables, c: Contexts, l: LastStmt) -> Contexts
    decreases l,
{
    match l {
        LastStmt::Return(r) => walk_return(t, c, r),
        LastStmt::Break(x) => walk_token(t, c, x),
    }
}

pub open spec fn walk_return(t: Tables, c: Contexts, r: Return) -> Contexts
    decreases r,
{
    let c1 = hooks(t, c, NodeKey::Return, WalkTy::Enter, NodeWrapper::Return(&r));
    let c2 = walk_token(t, c1, r.token);
    let c3 = walk_exprs(t, c2, r.values@);
    hooks(t, c3, NodeKey::Return, WalkTy::Leave, NodeWrapper::Return(&r))
}

/// Expressions in order; separators are not offered.
pub open spec fn walk_exprs(t: Tables, c: Contexts, s: Seq<(Expression, Option<TokenRef>)>) -> Contexts
    decreases s,
{
    if s.len() == 0 {
        c
    } else {
        walk_expr(t, walk_exprs(t, c, s.drop_last()), s.last().0)
    }
}

/// Expressions in order, each followed by its separator.
pub open spec fn walk_exprs_sep(t: Tables, c: Contexts, s: Seq<(Expression, Option<TokenRef>)>) -> Contexts
    decreases s,
{
    if s.len() == 0 {
        c
    } else {
        walk_opt_token(t, walk_expr(t, walk_exprs_sep(t, c, s.drop_last()), s.last().0), s.last().1)
    }
}

/// Operands, function bodies, calls, tables and parenthesized expressions;
/// operators, literals and variables are not offered.
pub open spec fn walk_expr(t: Tables, c: Contexts, e: Expression) -> Contexts
    decreases e,
{
    match e {
        Expression::BinaryOperator { lhs, rhs, .. } => walk_expr(t, walk_expr(t, c, *lhs), *rhs),
        Expression::Parentheses { expression, .. } => walk_expr(t, c, *expression),
        Expression::UnaryOperator { expression, .. } => walk_expr(t, c, *expression),
        Expression::Value(v) => match *v {
            Term::Function { body, .. } => walk_block(t, c, body.block),
            Term::FunctionCall(call) => walk_call(t, c, call),
            Term::TableConstructor(x) => walk_table(t, c, x),
            Term::ParenthesesExpression(e) => walk_expr(t, c, e),
            Term::Atom(_) => c,
        },
    }
}

pub open spec fn walk_call(t: Tables, c: Contexts, call: FunctionCall) -> Contexts
    decreases call,
{
    let c1 = match call.prefix {
        Prefix::Expression(e) => walk_expr(t, c, e),
        Prefix::Name(_) => c,
    };
    walk_suffixes(t, c1, call.suffixes@)
}

pub open spec fn walk_suffixes(t: Tables, c: Contexts, s: Seq<Suffix>) -> Contexts
    decreases s,
{
    if s.len() == 0 {
        c
    } else {
        walk_suffix(t, walk_suffixes(t, c, s.drop_last()), s.last())
    }
}

pub open spec fn walk_suffix(t: Tables, c: Contexts, x: Suffix) -> Contexts
    decreases x,
{
    match x {
        Suffix::Call(Call::AnonymousCall(a)) => walk_args(t, c, a),
        Suffix::Call(Call::MethodCall { args, .. }) => walk_args(t, c, args),
        Suffix::Index(Index::Brackets { expression, .. }) => walk_expr(t, c, expression),
        Suffix::Index(Index::Dot { .. }) => c,
    }
}

pub open spec fn walk_args(t: Tables, c: Contexts, a: FunctionArgs) -> Contexts
    decreases a,
{
    match a {
        FunctionArgs::Parentheses { arguments, .. } => walk_exprs(t, c, arguments@),
        FunctionArgs::TableConstructor(x) => walk_table(t, c, x),
        FunctionArgs::String(_) => c,
    }
}

pub open spec fn walk_table(t: Tables, c: Contexts, x: TableConstructor) -> Contexts
    decreases x,
{
    let c1 = hooks(t, c, NodeKey::TableConstructor, WalkTy::Enter, NodeWrapper::TableConstructor(&x));
    let c2 = walk_fields(t, c1, x.fields@);
    hooks(t, c2, NodeKey::TableConstructor, WalkTy::Leave, NodeWrapper::TableConstructor(&x))
}

pub open spec fn walk_fields(t: Tables, c: Contexts, s: Seq<(Field, Option<TokenRef>)>) -> Contexts
    decreases s,
{
    if s.len() == 0 {
        c
    } else {
        walk_field(t, walk_fields(t, c, s.drop_last()), s.last().0)
    }
}

pub open spec fn walk_field(t: Tables, c: Contexts, f: Field) -> Contexts
    decreases f,
{
    match f {
        Field::ExpressionKey { key, value, .. } => walk_expr(t, walk_expr(t, c, key), value),
        Field::NameKey { value, .. } => walk_expr(t, c, value),
        Field::NoKey(e) => walk_expr(t, c, e),
    }
}

/// Assignments, `do` blocks and labels are not looked into; a generic `for`
/// is offered to its enter callbacks only.
pub open spec fn walk_stmt(t: Tables, c: Contexts, s: Stmt) -> Contexts
    decreases s,
{
    match s {
        Stmt::FunctionCall(x) => walk_call(t, c, x),
        Stmt::FunctionDeclaration(f) => walk_func_decl(t, c, f),
        Stmt::GenericFor(g) => hooks(t, c, NodeKey::GenericFor, WalkTy::Enter, NodeWrapper::GenericFor(&g)),
        Stmt::If(i) => walk_if(t, c, i),
        Stmt::LocalAssignment(l) => walk_exprs_sep(t, c, l.expressions@),
        Stmt::LocalFunction(f) => walk_local_func(t, c, f),
        Stmt::NumericFor(f) => walk_numeric_for(t, c, f),
        Stmt::Repeat(r) => walk_repeat(t, c, r),
        Stmt::While(w) => walk_while(t, c, w),
        Stmt::Goto(g) => walk_goto(t, c, g),
        Stmt::Assignment(_) | Stmt::Do(_) | Stmt::Label(_) => c,
    }
}

pub open spec fn walk_func_name(t: Tables, c: Contexts, n: FunctionName) -> Contexts {
    let c1 = hooks(t, c, NodeKey::FuncName, WalkTy::Enter, NodeWrapper::FunctionName(&n));
    let c2 = walk_token_list(t, c1, n.names@);
    let c3 = match n.method {
        Some(m) => walk_token(t, walk_token(t, c2, m.0), m.1),
        None => c2,
    };
    hooks(t, c3, NodeKey::FuncName, WalkTy::Leave, NodeWrapper::FunctionName(&n))
}

pub open spec fn walk_func_body(t: Tables, c: Contexts, b: FunctionBody) -> Contexts
    decreases b,
{
    let c1 = walk_token(t, walk_token(t, c, b.open), b.close);
    let c2 = walk_params(t, c1, b.parameters@);
    walk_token(t, walk_block(t, c2, b.block), b.end_token)
}

pub open spec fn walk_func_decl(t: Tables, c: Contexts, f: FunctionDeclaration) -> Contexts
    decreases f,
{
    let c1 = hooks(t, c, NodeKey::FuncDecl, WalkTy::Enter, NodeWrapper::FunctionDeclaration(&f));
    let c2 = walk_func_name(t, walk_token(t, c1, f.function_token), f.name);
    let c3 = walk_func_body(t, c2, f.body);
    hooks(t, c3, NodeKey::FuncDecl, WalkTy::Leave, NodeWrapper::FunctionDeclaration(&f))
}

pub open spec fn walk_local_func(t: Tables, c: Contexts, f: LocalFunction) -> Contexts
    decreases f,
{
    let c1 = walk_token(t, walk_token(t, walk_token(t, c, f.local_token), f.function_token), f.name);
    walk_func_body(t, c1, f.body)
}

pub open spec fn walk_else_ifs(t: Tables, c: Contexts, s: Seq<ElseIf>) -> Contexts
    decreases s,
{
    if s.len() == 0 {
        c
    } else {
        walk_else_if(t, walk_else_ifs(t, c, s.drop_last()), s.last())
    }
}

pub open spec fn walk_else_if(t: Tables, c: Contexts, e: ElseIf) -> Contexts
    decreases e,
{
    let c1 = walk_expr(t, walk_token(t, c, e.else_if_token), e.condition);
    walk_block(t, walk_token(t, c1, e.then_token), e.block)
}

pub open spec fn walk_if(t: Tables, c: Contexts, i: If) -> Contexts
    decreases i,
{
    let c1 = hooks(t, c, NodeKey::If, WalkTy::Enter, NodeWrapper::If(&i));
    let c2 = walk_expr(t, walk_token(t, c1, i.if_token), i.condition);
    let c3 = walk_block(t, walk_token(t, c2, i.then_token), i.block);
    let c4 = walk_else_ifs(t, c3, i.else_if@);
    let c5 = walk_opt_token(t, c4, i.else_token);
    let c6 = match i.else_block {
        Some(b) => walk_block(t, c5, b),
        None => c5,
    };
    let c7 = walk_token(t, c6, i.end_token);
    hooks(t, c7, NodeKey::If, WalkTy::Leave, NodeWrapper::If(&i))
}

pub open spec fn walk_numeric_for(t: Tables, c: Contexts, f: NumericFor) -> Contexts
    decreases f,
{
    let c1 = hooks(t, c, NodeKey::NumericFor, WalkTy::Enter, NodeWrapper::NumericFor(&f));
    let c2 = walk_token(t, walk_token(t, walk_token(t, c1, f.for_token), f.index_variable), f.equal_token);
    let c3 = walk_expr(t, walk_token(t, walk_expr(t, c2, f.start), f.start_end_comma), f.end);
    let c4 = walk_opt_token(t, c3, f.end_step_comma);
    let c5 = match f.step {
        Some(e) => walk_expr(t, c4, e),
        None => c4,
    };
    let c6 = walk_token(t, walk_block(t, walk_token(t, c5, f.do_token), f.block), f.end_token);
    hooks(t, c6, NodeKey::NumericFor, WalkTy::Leave, NodeWrapper::NumericFor(&f))
}

pub open spec fn walk_repeat(t: Tables, c: Contexts, r: Repeat) -> Contexts
    decreases r,
{
    let c1 = hooks(t, c, NodeKey::Repeat, WalkTy::Enter, NodeWrapper::Repeat(&r));
    let c2 = walk_token(t, walk_block(t, walk_token(t, c1, r.repeat_token), r.block), r.until_token);
    let c3 = walk_expr(t, c2, r.until);
    hooks(t, c3, NodeKey::Repeat, WalkTy::Leave, NodeWrapper::Repeat(&r))
}

pub open spec fn walk_while(t: Tables, c: Contexts, w: While) -> Contexts
    decreases w,
{
    let c1 = hooks(t, c, NodeKey::While, WalkTy::Enter, NodeWrapper::While(&w));
    let c2 = walk_token(t, walk_expr(t, walk_token(t, c1, w.while_token), w.condition), w.do_token);
    let c3 = walk_token(t, walk_block(t, c2, w.block), w.end_token);
    hooks(t, c3, NodeKey::While, WalkTy::Leave, NodeWrapper::While(&w))
}

pub open spec fn walk_goto(t: Tables, c: Contexts, g: Goto) -> Contexts {
    let c1 = hooks(t, c, NodeKey::Goto, WalkTy::Enter, NodeWrapper::Goto(&g));
    let c2 = walk_token(t, walk_token(t, c1, g.goto_token), g.label_name);
    hooks(t, c2, NodeKey::Goto, WalkTy::Leave, NodeWrapper::Goto(&g))
}

pub open spec fn walk_ast(t: Tables, c: Contexts, a: Ast) -> Contexts {
    walk_token(t, walk_block(t, c, a.nodes), a.eof)
}

/// Runs the callbacks bound to `key` for `ty` on `node`.
fn fire(linter: &mut Linter, key: NodeKey, ty: WalkTy, node: NodeWrapper)
    requires
        old(linter).wf(),
    ensures
        final(linter).rule_registry.stepped(
            old(linter).rule_registry,
            hooks(old(linter).rule_registry.tables(), old(linter).rule_registry.ctxs(), key, ty, node),
        ),
{
    let _ = linter.rule_registry.trigger_walker(key, ty, node);
}

/// Offers a token to the `TokenRef` enter callbacks.
pub fn lint_token_ref(linter: &mut Linter, token_ref: &TokenRef)
    requires
        old(linter).wf(),
    ensures
        final(linter).rule_registry.stepped(
            old(linter).rule_registry,
            walk_token(old(linter).rule_registry.tables(), old(linter).rule_registry.ctxs(), *token_ref),
        ),
{
    fire(linter, NodeKey::TokenRef, WalkTy::Enter, NodeWrapper::TokenRef(token_ref));
}

fn lint_opt_token_ref(linter: &mut Linter, t: &Option<TokenRef>)
    requires
        old(linter).wf(),
    ensures
        final(linter).rule_registry.stepped(
            old(linter).rule_registry,
            walk_opt_token(old(linter).rule_registry.tables(), old(linter).rule_registry.ctxs(), *t),
        ),
{
    match t {
        Some(x) => lint_token_ref(linter, x),
        None => {},
    }
}

fn lint_token_list(linter: &mut Linter, list: &Vec<(TokenRef, Option<TokenRef>)>)
    requires
        old(linter).wf(),
    ensures
        final(linter).rule_registry.stepped(
            old(linter).rule_registry,
            walk_token_list(old(linter).rule_registry.tables(), old(linter).rule_registry.ctxs(), list@),
        ),
{
    let ghost t = linter.rule_registry.tables();
    let ghost c0 = linter.rule_registry.ctxs();
    let ghost reg0 = linter.rule_registry;
    let mut i: usize = 0;
    while i < list.len()
        invariant
            i <= list@.len(),
            linter.rule_registry.stepped(reg0, walk_token_list(t, c0, list@.take(i as int))),
            t == reg0.tables(),
        decreases list.len() - i,
    {
        proof {
            assert(list@.take(i + 1).drop_last() =~= list@.take(i as int));
        }
        lint_token_ref(linter, &list[i].0);
        lint_opt_token_ref(linter, &list[i].1);
        i = i + 1;
    }
    proof {
        assert(list@.take(list@.len() as int) =~= list@);
    }
}

pub fn lint_parameters(linter: &mut Linter, params: &Vec<(Parameter, Option<TokenRef>)>)
    requires
        old(linter).wf(),
    ensures
        final(linter).rule_registry.stepped(
            old(linter).rule_registry,
            walk_params(old(linter).rule_registry.tables(), old(linter).rule_registry.ctxs(), params@),
        ),
{
    let ghost t = linter.rule_registry.tables();
    let ghost c0 = linter.rule_registry.ctxs();
    let ghost reg0 = linter.rule_registry;
    let mut i: usize = 0;
    while i < params.len()
        invariant
            i <= params@.len(),
            linter.rule_registry.stepped(reg0, walk_params(t, c0, params@.take(i as int))),
            t == reg0.tables(),
        decreases params.len() - i,
    {
        proof {
            assert(params@.take(i + 1).drop_last() =~= params@.take(i as int));
        }
        lint_parameter(linter, &params[i].0);
        i = i + 1;
    }
    proof {
        assert(params@.take(params@.len() as int) =~= params@);
    }
}

pub fn lint_parameter(linter: &mut Linter, parameter: &Parameter)
    requires
        old(linter).wf(),
    ensures
        final(linter).rule_registry.stepped(
            old(linter).rule_registry,
            match *parameter {
                Parameter::Name(x) => walk_token(old(linter).rule_registry.tables(), old(linter).rule_registry.ctxs(), x),
                Parameter::Ellipse(x) => walk_token(old(linter).rule_registry.tables(), old(linter).rule_registry.ctxs(), x),
            },
        ),
{
    match parameter {
        Parameter::Name(n) => lint_token_ref(linter, n),
        Parameter::Ellipse(v) => lint_token_ref(linter, v),
    }
}

/// Walks a block: enter callbacks, its statements in order, its last
/// statement, leave callbacks.
pub fn lint_block(linter: &mut Linter, block: &Block)
    requires
        old(linter).wf(),
    ensures
        final(linter).rule_registry.stepped(
            old(linter).rule_registry,
            walk_block(old(linter).rule_registry.tables(), old(linter).rule_registry.ctxs(), *block),
        ),
    decreases block,
{
    fire(linter, NodeKey::Block, WalkTy::Enter, NodeWrapper::Block(block));
    lint_stmts(linter, &block.stmts);
    match &block.last_stmt {
        Some(p) => lint_last_stmt(linter, &p.0),
        None => {},
    }
    fire(linter, NodeKey::Block, WalkTy::Leave, NodeWrapper::Block(block));
}

fn lint_stmts(linter: &mut Linter, stmts: &Vec<(Stmt, Option<TokenRef>)>)
    requires
        old(linter).wf(),
    ensures
        final(linter).rule_registry.stepped(
            old(linter).rule_registry,
            walk_stmts(old(linter).rule_registry.tables(), old(linter).rule_registry.ctxs(), stmts@),
        ),
    decreases stmts,
{
    let ghost t = linter.rule_registry.tables();
    let ghost c0 = linter.rule_registry.ctxs();
    let ghost reg0 = linter.rule_registry;
    let mut i: usize = 0;
    while i < stmts.len()
        invariant
            i <= stmts@.len(),
            linter.rule_registry.stepped(reg0, walk_stmts(t, c0, stmts@.take(i as int))),
            t == reg0.tables(),
        decreases stmts.len() - i,
    {
        proof {
            assert(stmts@.take(i + 1).drop_last() =~= stmts@.take(i as int));
            assert(decreases_to!(stmts => stmts[i as int]));
        }
        lint_stmt(linter, &stmts[i].0);
        i = i + 1;
    }
    proof {
        assert(stmts@.take(stmts@.len() as int) =~= stmts@);
    }
}

pub fn lint_last_stmt(linter: &mut Linter, last_stmt: &LastStmt)
    requires
        old(linter).wf(),
    ensures
        final(linter).rule_registry.stepped(
            old(linter).rule_registry,
            walk_last(old(linter).rule_registry.tables(), old(linter).rule_registry.ctxs(), *last_stmt),
        ),
    decreases last_stmt,
{
    match last_stmt {
        LastStmt::Return(ret) => lint_return(linter, ret),
        LastStmt::Break(x) => lint_token_ref(linter, x),
    }
}

pub fn lint_return(linter: &mut Linter, return_node: &Return)
    requires
        old(linter).wf(),
    ensures
        final(linter).rule_registry.stepped(
            old(linter).rule_registry,
            walk_return(old(linter).rule_registry.tables(), old(linter).rule_registry.ctxs(), *return_node),
        ),
    decreases return_node,
{
    fire(linter, NodeKey::Return, WalkTy::Enter, NodeWrapper::Return(return_node));
    lint_token_ref(linter, &return_node.token);
    lint_exprs(linter, &return_node.values);
    fire(linter, NodeKey::Return, WalkTy::Leave, NodeWrapper::Return(return_node));
}

fn lint_exprs(linter: &mut Linter, exprs: &Vec<(Expression, Option<TokenRef>)>)
    requires
        old(linter).wf(),
    ensures
        final(linter).rule_registry.stepped(
            old(linter).rule_registry,
            walk_exprs(old(linter).rule_registry.tables(), old(linter).rule_registry.ctxs(), exprs@),
        ),
    decreases exprs,
{
    let ghost t = linter.rule_registry.tables();
    let ghost c0 = linter.rule_registry.ctxs();
    let ghost reg0 = linter.rule_registry;
    let mut i: usize = 0;
    while i < exprs.len()
        invariant
            i <= exprs@.len(),
            linter.rule_registry.stepped(reg0, walk_exprs(t, c0, exprs@.take(i as int))),
            t == reg0.tables(),
        decreases exprs.len() - i,
    {
        proof {
            assert(exprs@.take(i + 1).drop_last() =~= exprs@.take(i as int));
            assert(decreases_to!(exprs => exprs[i as int]));
        }
        lint_expr(linter, &exprs[i].0);
        i = i + 1;
    }
    proof {
        assert(exprs@.take(exprs@.len() as int) =~= exprs@);
    }
}

fn lint_exprs_sep(linter: &mut Linter, exprs: &Vec<(Expression, Option<TokenRef>)>)
    requires
        old(linter).wf(),
    ensures
        final(linter).rule_registry.stepped(
            old(linter).rule_registry,
            walk_exprs_sep(old(linter).rule_registry.tables(), old(linter).rule_registry.ctxs(), exprs@),
        ),
    decreases exprs,
{
    let ghost t = linter.rule_registry.tables();
    let ghost c0 = linter.rule_registry.ctxs();
    let ghost reg0 = linter.rule_registry;
    let mut i: usize = 0;
    while i < exprs.len()
        invariant
            i <= exprs@.len(),
            linter.rule_registry.stepped(reg0, walk_exprs_sep(t, c0, exprs@.take(i as int))),
            t == reg0.tables(),
        decreases exprs.len() - i,
    {
        proof {
            assert(exprs@.take(i + 1).drop_last() =~= exprs@.take(i as int));
            assert(decreases_to!(exprs => exprs[i as int]));
        }
        lint_expr(linter, &exprs[i].0);
        lint_opt_token_ref(linter, &exprs[i].1);
        i = i + 1;
    }
    proof {
        assert(exprs@.take(exprs@.len() as int) =~= exprs@);
    }
}

/// Walks an expression: operands, function bodies, calls, tables and
/// parenthesized expressions.
pub fn lint_expr(linter: &mut Linter, expression: &Expression)
    requires
        old(linter).wf(),
    ensures
        final(linter).rule_registry.stepped(
            old(linter).rule_registry,
            walk_expr(old(linter).rule_registry.tables(), old(linter).rule_registry.ctxs(), *expression),
        ),
    decreases expression,
{
    match expression {
        Expression::BinaryOperator { lhs, rhs, .. } => {
            lint_expr(linter, lhs);
            lint_expr(linter, rhs);
        },
        Expression::Parentheses { expression, .. } => lint_expr(linter, expression),
        Expression::UnaryOperator { expression, .. } => lint_expr(linter, expression),
        Expression::Value(value) => match &**value {
            Term::Function { body, .. } => lint_block(linter, &body.block),
            Term::FunctionCall(call) => lint_func_call_block(linter, call),
            Term::TableConstructor(x) => lint_table_ctor(linter, x),
            Term::ParenthesesExpression(e) => lint_expr(linter, e),
            Term::Atom(_) => {},
        },
    }
}

/// Walks a call: its prefix, then each suffix in order.
pub fn lint_func_call_block(linter: &mut Linter, func_call: &FunctionCall)
    requires
        old(linter).wf(),
    ensures
        final(linter).rule_registry.stepped(
            old(linter).rule_registry,
            walk_call(old(linter).rule_registry.tables(), old(linter).rule_registry.ctxs(), *func_call),
        ),
    decreases func_call,
{
    match &func_call.prefix {
        Prefix::Expression(e) => lint_expr(linter, e),
        Prefix::Name(_) => {},
    }
    let ghost t = linter.rule_registry.tables();
    let ghost c0 = linter.rule_registry.ctxs();
    let ghost reg0 = linter.rule_registry;
    let suffixes = &func_call.suffixes;
    let mut i: usize = 0;
    while i < suffixes.len()
        invariant
            i <= suffixes@.len(),
            suffixes == &func_call.suffixes,
            linter.rule_registry.stepped(reg0, walk_suffixes(t, c0, suffixes@.take(i as int))),
            t == reg0.tables(),
        decreases suffixes.len() - i,
    {
        proof {
            assert(suffixes@.take(i + 1).drop_last() =~= suffixes@.take(i as int));
            assert(decreases_to!(func_call.suffixes => func_call.suffixes[i as int]));
        }
        proof {
            assert(suffixes@.take(i + 1).last() == suffixes@[i as int]);
        }
        lint_suffix(linter, &suffixes[i]);
        i = i + 1;
    }
    proof {
        assert(suffixes@.take(suffixes@.len() as int) =~= suffixes@);
    }
}

fn lint_suffix(linter: &mut Linter, suffix: &Suffix)
    requires
        old(linter).wf(),
    ensures
        final(linter).rule_registry.stepped(
            old(linter).rule_registry,
            walk_suffix(old(linter).rule_registry.tables(), old(linter).rule_registry.ctxs(), *suffix),
        ),
    decreases suffix,
{
    match suffix {
        Suffix::Call(Call::AnonymousCall(args)) => lint_func_args_block(linter, args),
        Suffix::Call(Call::MethodCall { args, .. }) => lint_func_args_block(linter, args),
        Suffix::Index(Index::Brackets { expression, .. }) => lint_expr(linter, expression),
        Suffix::Index(Index::Dot { .. }) => {},
    }
}

pub fn lint_func_args_block(linter: &mut Linter, function_args: &FunctionArgs)
    requires
        old(linter).wf(),
    ensures
        final(linter).rule_registry.stepped(
            old(linter).rule_registry,
            walk_args(old(linter).rule_registry.tables(), old(linter).rule_registry.ctxs(), *function_args),
        ),
    decreases function_args,
{
    match function_args {
        FunctionArgs::Parentheses { arguments, .. } => lint_exprs(linter, arguments),
        FunctionArgs::TableConstructor(x) => lint_table_ctor(linter, x),
        FunctionArgs::String(_) => {},
    }
}

/// Walks a table constructor: enter callbacks, the fields in order, leave callbacks.
pub fn lint_table_ctor(linter: &mut Linter, table_constructor: &TableConstructor)
    requires
        old(linter).wf(),
    ensures
        final(linter).rule_registry.stepped(
            old(linter).rule_registry,
            walk_table(old(linter).rule_registry.tables(), old(linter).rule_registry.ctxs(), *table_constructor),
        ),
    decreases table_constructor,
{
    fire(linter, NodeKey::TableConstructor, WalkTy::Enter, NodeWrapper::TableConstructor(table_constructor));
    let ghost t = linter.rule_registry.tables();
    let ghost c0 = linter.rule_registry.ctxs();
    let ghost reg0 = linter.rule_registry;
    let fields = &table_constructor.fields;
    let mut i: usize = 0;
    while i < fields.len()
        invariant
            i <= fields@.len(),
            fields == &table_constructor.fields,
            linter.rule_registry.stepped(reg0, walk_fields(t, c0, fields@.take(i as int))),
            t == reg0.tables(),
            reg0.wf(),
        decreases fields.len() - i,
    {
        proof {
            assert(fields@.take(i + 1).drop_last() =~= fields@.take(i as int));
            assert(decreases_to!(table_constructor.fields => table_constructor.fields[i as int]));
        }
        lint_field(linter, &fields[i].0);
        i = i + 1;
    }
    proof {
        assert(fields@.take(fields@.len() as int) =~= fields@);
    }
    fire(linter, NodeKey::TableConstructor, WalkTy::Leave, NodeWrapper::TableConstructor(table_constructor));
}

pub fn lint_field(linter: &mut Linter, field: &Field)
    requires
        old(linter).wf(),
    ensures
        final(linter).rule_registry.stepped(
            old(linter).rule_registry,
            walk_field(old(linter).rule_registry.tables(), old(linter).rule_registry.ctxs(), *field),
        ),
    decreases field,
{
    match field {
        Field::ExpressionKey { key, value, .. } => {
            lint_expr(linter, key);
            lint_expr(linter, value);
        },
        Field::NameKey { value, .. } => lint_expr(linter, value),
        Field::NoKey(e) => lint_expr(linter, e),
    }
}

/// Walks a statement. Assignments, `do` blocks and labels are not looked
/// into; a generic `for` is offered to its enter callbacks only.
pub fn lint_stmt(linter: &mut Linter, stmt: &Stmt)
    requires
        old(linter).wf(),
    ensures
        final(linter).rule_registry.stepped(
            old(linter).rule_registry,
            walk_stmt(old(linter).rule_registry.tables(), old(linter).rule_registry.ctxs(), *stmt),
        ),
    decreases stmt,
{
    match stmt {
        Stmt::FunctionCall(c) => lint_func_call_block(linter, c),
        Stmt::FunctionDeclaration(f) => lint_func_decl(linter, f),
        Stmt::GenericFor(g) => fire(linter, NodeKey::GenericFor, WalkTy::Enter, NodeWrapper::GenericFor(g)),
        Stmt::If(i) => lint_if(linter, i),
        Stmt::LocalAssignment(l) => lint_local_assign(linter, l),
        Stmt::LocalFunction(f) => lint_local_func(linter, f),
        Stmt::NumericFor(f) => lint_numeric_for(linter, f),
        Stmt::Repeat(r) => lint_repeat(linter, r),
        Stmt::While(w) => lint_while(linter, w),
        Stmt::Goto(g) => lint_goto(linter, g),
        Stmt::Assignment(_) | Stmt::Do(_) | Stmt::Label(_) => {},
    }
}

pub fn lint_func_decl(linter: &mut Linter, func_decl_stmt: &FunctionDeclaration)
    requires
        old(linter).wf(),
    ensures
        final(linter).rule_registry.stepped(
            old(linter).rule_registry,
            walk_func_decl(old(linter).rule_registry.tables(), old(linter).rule_registry.ctxs(), *func_decl_stmt),
        ),
    decreases func_decl_stmt,
{
    fire(linter, NodeKey::FuncDecl, WalkTy::Enter, NodeWrapper::FunctionDeclaration(func_decl_stmt));
    lint_token_ref(linter, &func_decl_stmt.function_token);
    lint_func_name(linter, &func_decl_stmt.name);
    lint_func_body(linter, &func_decl_stmt.body);
    fire(linter, NodeKey::FuncDecl, WalkTy::Leave, NodeWrapper::FunctionDeclaration(func_decl_stmt));
}

pub fn lint_func_name(linter: &mut Linter, func_name: &FunctionName)
    requires
        old(linter).wf(),
    ensures
        final(linter).rule_registry.stepped(
            old(linter).rule_registry,
            walk_func_name(old(linter).rule_registry.tables(), old(linter).rule_registry.ctxs(), *func_name),
        ),
{
    fire(linter, NodeKey::FuncName, WalkTy::Enter, NodeWrapper::FunctionName(func_name));
    lint_token_list(linter, &func_name.names);
    match &func_name.method {
        Some(m) => {
            lint_token_ref(linter, &m.0);
            lint_token_ref(linter, &m.1);
        },
        None => {},
    }
    fire(linter, NodeKey::FuncName, WalkTy::Leave, NodeWrapper::FunctionName(func_name));
}

/// Walks a function body: parentheses, parameters, block, `end`.
pub fn lint_func_body(linter: &mut Linter, func_body: &FunctionBody)
    requires
        old(linter).wf(),
    ensures
        final(linter).rule_registry.stepped(
            old(linter).rule_registry,
            walk_func_body(old(linter).rule_registry.tables(), old(linter).rule_registry.ctxs(), *func_body),
        ),
    decreases func_body,
{
    lint_token_ref(linter, &func_body.open);
    lint_token_ref(linter, &func_body.close);
    lint_parameters(linter, &func_body.parameters);
    lint_block(linter, &func_body.block);
    lint_token_ref(linter, &func_body.end_token);
}

pub fn lint_local_func(linter: &mut Linter, local_func_stmt: &LocalFunction)
    requires
        old(linter).wf(),
    ensures
        final(linter).rule_registry.stepped(
            old(linter).rule_registry,
            walk_local_func(old(linter).rule_registry.tables(), old(linter).rule_registry.ctxs(), *local_func_stmt),
        ),
    decreases local_func_stmt,
{
    lint_token_ref(linter, &local_func_stmt.local_token);
    lint_token_ref(linter, &local_func_stmt.function_token);
    lint_token_ref(linter, &local_func_stmt.name);
    lint_func_body(linter, &local_func_stmt.body);
}

/// Walks a local assignment: its expressions and their separators; the names
/// are not offered.
pub fn lint_local_assign(linter: &mut Linter, las: &LocalAssignment)
    requires
        old(linter).wf(),
    ensures
        final(linter).rule_registry.stepped(
            old(linter).rule_registry,
            walk_exprs_sep(old(linter).rule_registry.tables(), old(linter).rule_registry.ctxs(), las.expressions@),
        ),
    decreases las,
{
    lint_exprs_sep(linter, &las.expressions);
}

fn lint_else_if(linter: &mut Linter, e: &ElseIf)
    requires
        old(linter).wf(),
    ensures
        final(linter).rule_registry.stepped(
            old(linter).rule_registry,
            walk_else_if(old(linter).rule_registry.tables(), old(linter).rule_registry.ctxs(), *e),
        ),
    decreases e,
{
    lint_token_ref(linter, &e.else_if_token);
    lint_expr(linter, &e.condition);
    lint_token_ref(linter, &e.then_token);
    lint_block(linter, &e.block);
}

fn lint_else_ifs(linter: &mut Linter, else_if: &Vec<ElseIf>)
    requires
        old(linter).wf(),
    ensures
        final(linter).rule_registry.stepped(
            old(linter).rule_registry,
            walk_else_ifs(old(linter).rule_registry.tables(), old(linter).rule_registry.ctxs(), else_if@),
        ),
    decreases else_if,
{
    let ghost t = linter.rule_registry.tables();
    let ghost c0 = linter.rule_registry.ctxs();
    let ghost reg0 = linter.rule_registry;
    let mut i: usize = 0;
    while i < else_if.len()
        invariant
            i <= else_if@.len(),
            linter.rule_registry.stepped(reg0, walk_else_ifs(t, c0, else_if@.take(i as int))),
            t == reg0.tables(),
        decreases else_if.len() - i,
    {
        proof {
            assert(else_if@.take(i + 1).drop_last() =~= else_if@.take(i as int));
            assert(decreases_to!(else_if => else_if[i as int]));
        }
        proof {
            assert(else_if@.take(i + 1).last() == else_if@[i as int]);
        }
        lint_else_if(linter, &else_if[i]);
        i = i + 1;
    }
    proof {
        assert(else_if@.take(else_if@.len() as int) =~= else_if@);
    }
}

/// Walks an `if`: enter callbacks, then its parts in source order, then leave callbacks.
#[verifier::rlimit(100)]
pub fn lint_if(linter: &mut Linter, if_stmt: &If)
    requires
        old(linter).wf(),
    ensures
        final(linter).rule_registry.stepped(
            old(linter).rule_registry,
            walk_if(old(linter).rule_registry.tables(), old(linter).rule_registry.ctxs(), *if_stmt),
        ),
    decreases if_stmt,
{
    fire(linter, NodeKey::If, WalkTy::Enter, NodeWrapper::If(if_stmt));
    lint_token_ref(linter, &if_stmt.if_token);
    lint_expr(linter, &if_stmt.condition);
    lint_token_ref(linter, &if_stmt.then_token);
    lint_block(linter, &if_stmt.block);
    lint_else_ifs(linter, &if_stmt.else_if);
    lint_opt_token_ref(linter, &if_stmt.else_token);
    match &if_stmt.else_block {
        Some(b) => lint_block(linter, b),
        None => {},
    }
    lint_token_ref(linter, &if_stmt.end_token);
    fire(linter, NodeKey::If, WalkTy::Leave, NodeWrapper::If(if_stmt));
}

pub fn lint_numeric_for(linter: &mut Linter, numeric_for: &NumericFor)
    requires
        old(linter).wf(),
    ensures
        final(linter).rule_registry.stepped(
            old(linter).rule_registry,
            walk_numeric_for(old(linter).rule_registry.tables(), old(linter).rule_registry.ctxs(), *numeric_for),
        ),
    decreases numeric_for,
{
    fire(linter, NodeKey::NumericFor, WalkTy::Enter, NodeWrapper::NumericFor(numeric_for));
    lint_token_ref(linter, &numeric_for.for_token);
    lint_token_ref(linter, &numeric_for.index_variable);
    lint_token_ref(linter, &numeric_for.equal_token);
    lint_expr(linter, &numeric_for.start);
    lint_token_ref(linter, &numeric_for.start_end_comma);
    lint_expr(linter, &numeric_for.end);
    lint_opt_token_ref(linter, &numeric_for.end_step_comma);
    match &numeric_for.step {
        Some(e) => lint_expr(linter, e),
        None => {},
    }
    lint_token_ref(linter, &numeric_for.do_token);
    lint_block(linter, &numeric_for.block);
    lint_token_ref(linter, &numeric_for.end_token);
    fire(linter, NodeKey::NumericFor, WalkTy::Leave, NodeWrapper::NumericFor(numeric_for));
}

pub fn lint_repeat(linter: &mut Linter, repeat_stmt: &Repeat)
    requires
        old(linter).wf(),
    ensures
        final(linter).rule_registry.stepped(
            old(linter).rule_registry,
            walk_repeat(old(linter).rule_registry.tables(), old(linter).rule_registry.ctxs(), *repeat_stmt),
        ),
    decreases repeat_stmt,
{
    fire(linter, NodeKey::Repeat, WalkTy::Enter, NodeWrapper::Repeat(repeat_stmt));
    lint_token_ref(linter, &repeat_stmt.repeat_token);
    lint_block(linter, &repeat_stmt.block);
    lint_token_ref(linter, &repeat_stmt.until_token);
    lint_expr(linter, &repeat_stmt.until);
    fire(linter, NodeKey::Repeat, WalkTy::Leave, NodeWrapper::Repeat(repeat_stmt));
}

pub fn lint_while(linter: &mut Linter, while_stmt: &While)
    requires
        old(linter).wf(),
    ensures
        final(linter).rule_registry.stepped(
            old(linter).rule_registry,
            walk_while(old(linter).rule_registry.tables(), old(linter).rule_registry.ctxs(), *while_stmt),
        ),
    decreases while_stmt,
{
    fire(linter, NodeKey::While, WalkTy::Enter, NodeWrapper::While(while_stmt));
    lint_token_ref(linter, &while_stmt.while_token);
    lint_expr(linter, &while_stmt.condition);
    lint_token_ref(linter, &while_stmt.do_token);
    lint_block(linter, &while_stmt.block);
    lint_token_ref(linter, &while_stmt.end_token);
    fire(linter, NodeKey::While, WalkTy::Leave, NodeWrapper::While(while_stmt));
}

pub fn lint_goto(linter: &mut Linter, goto_stmt: &Goto)
    requires
        old(linter).wf(),
    ensures
        final(linter).rule_registry.stepped(
            old(linter).rule_registry,
            walk_goto(old(linter).rule_registry.tables(), old(linter).rule_registry.ctxs(), *goto_stmt),
        ),
{
    fire(linter, NodeKey::Goto, WalkTy::Enter, NodeWrapper::Goto(goto_stmt));
    lint_token_ref(linter, &goto_stmt.goto_token);
    lint_token_ref(linter, &goto_stmt.label_name);
    fire(linter, NodeKey::Goto, WalkTy::Leave, NodeWrapper::Goto(goto_stmt));
}

/// Walks a whole source: its block, then the end-of-file token. The tree is
/// handed back as it came.
pub fn lint_ast(ast: Ast, linter: &mut Linter) -> (r: Ast)
    requires
        old(linter).wf(),
    ensures
        r == ast,
        final(linter).rule_registry.stepped(
            old(linter).rule_registry,
            walk_ast(old(linter).rule_registry.tables(), old(linter).rule_registry.ctxs(), ast),
        ),
{
    lint_block(linter, &ast.nodes);
    lint_token_ref(linter, &ast.eof);
    ast
}

} // verus!
