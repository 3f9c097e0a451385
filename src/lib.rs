//! A pluggable lint engine for Lua sources: rules subscribe to a preprocessing
//! pass over the raw text, a pass over the token stream and a walk over the
//! syntax tree, and collect their diagnostics privately.
pub mod text;
pub mod ignore;
pub mod jsonc;
pub mod report;
pub mod token;
pub mod ast;
pub mod node;
pub mod registry;
pub mod rules;
pub mod lint;
pub mod lint_visitor;
pub mod linter_builder;
