//! The payload handed to rule callbacks, and the dispatch points of the walk.
use vstd::prelude::*;
use crate::ast::{
    Block, FunctionDeclaration, FunctionName, Goto, If, NumericFor, Repeat, Return,
    TableConstructor, TokenRef, TokenRun, While,
};
use crate::token::Token;

verus! {

/// The node kinds that callbacks can be bound to.
#[derive(Clone, Copy, Debug, PartialEq, Eq, Structural, Hash)]
pub enum NodeKey {
    Block,
    Eof,
    Stmt,
    Goto,
    LastStmt,
    Return,
    Break,
    ExprBlock,
    FuncCallBlock,
    TableConstructor,
    Assignment,
    Do,
    FuncCall,
    FuncDecl,
    GenericFor,
    NumericFor,
    If,
    LocalAssign,
    LocalFunc,
    Numericfor,
    Repeat,
    While,
    FuncArgsBlock,
    Field,
    TokenRef,
    FuncName,
}

/// Whether callbacks run before or after a node's children are walked.
#[derive(Clone, Copy, Debug, PartialEq, Eq, Structural)]
pub enum WalkTy {
    Enter,
    Leave,
}

/// What a callback receives and returns: the source text or a token, which
/// preprocessors and token callbacks may rewrite, or a node of the tree, which
/// walk callbacks observe in place. A callback bound to a kind gets the variant
/// of that kind and hands back the same variant.
pub enum NodeWrapper<'a> {
    Source(String),
    Token(Token),
    TokenRef(&'a TokenRef),
    Block(&'a Block),
    Return(&'a Return),
    TableConstructor(&'a TableConstructor),
    FunctionName(&'a FunctionName),
    FunctionDeclaration(&'a FunctionDeclaration),
    GenericFor(&'a TokenRun),
    If(&'a If),
    NumericFor(&'a NumericFor),
    Repeat(&'a Repeat),
    While(&'a While),
    Goto(&'a Goto),
}

} // verus!
