//! Tokens of Lua source, with their positions, and the tokenizer that makes them.
use vstd::prelude::*;

verus! {

/// The category of a token.
#[derive(Clone, Copy, Debug, PartialEq, Eq, Structural)]
pub enum LexKind {
    Eof,
    Identifier,
    MultiLineComment,
    Number,
    Shebang,
    SingleLineComment,
    StringLiteral,
    Symbol,
    Whitespace,
}

/// A place in the source: `line` counts from 1, `character` is the column.
/// A token's end position is the column just past its last character.
#[derive(Clone, Copy, Debug, PartialEq, Eq, Structural)]
pub struct Location {
    pub line: usize,
    pub character: usize,
}

impl Location {
    pub fn line(&self) -> (r: usize)
        ensures
            r == self.line,
    {
        self.line
    }

    pub fn character(&self) -> (r: usize)
        ensures
            r == self.character,
    {
        self.character
    }
}

/// A token: its kind, its text as it stands in the source, and where it starts and ends.
pub struct Token {
    pub kind: LexKind,
    pub text: String,
    pub start: Location,
    pub end: Location,
}

pub struct TokenView {
    pub kind: LexKind,
    pub text: Seq<char>,
    pub start: Location,
    pub end: Location,
}

impl View for Token {
    type V = TokenView;

    open spec fn view(&self) -> TokenView {
        TokenView { kind: self.kind, text: self.text@, start: self.start, end: self.end }
    }
}

/// The views of a list of tokens.
pub open spec fn token_views(v: Seq<Token>) -> Seq<TokenView> {
    v.map_values(|t: Token| t@)
}

impl Token {
    pub fn start_position(&self) -> (r: Location)
        ensures
            r == self.start,
    {
        self.start
    }

    pub fn end_position(&self) -> (r: Location)
        ensures
            r == self.end,
    {
        self.end
    }

    pub fn token_kind(&self) -> (r: LexKind)
        ensures
            r == self.kind,
    {
        self.kind
    }

    /// Whether the token is a comment.
    pub fn is_comment(&self) -> (r: bool)
        ensures
            r == is_comment_kind(self.kind),
    {
        match self.kind {
            LexKind::SingleLineComment | LexKind::MultiLineComment => true,
            _ => false,
        }
    }
}

pub open spec fn is_comment_kind(k: LexKind) -> bool {
    k == LexKind::SingleLineComment || k == LexKind::MultiLineComment
}

/// The token stream that the Lua tokenizer makes of a source text, or `None`
/// where the tokenizer rejects it.
pub uninterp spec fn lua_tokens(src: Seq<char>) -> Option<Seq<TokenView>>;

/// full_moon's tokenizer error, carried only to be told apart from success.
#[verifier::external_type_specification]
#[verifier::external_body]
pub struct ExTokenizerError(full_moon::tokenizer::TokenizerError);

/// full_moon's token kind, converted to `LexKind` as tokens are read.
#[verifier::external_type_specification]
#[verifier::external_body]
pub struct ExLuaTokenKind(full_moon::tokenizer::TokenKind);

/// full_moon's token position, converted to `Location` as tokens are read.
#[verifier::external_type_specification]
#[verifier::external_body]
pub struct ExLuaPosition(full_moon::tokenizer::Position);

/// Relies on the variants of `full_moon::tokenizer::TokenKind`: one kind for each.
#[verifier::external_body]
fn lua_kind(k: full_moon::tokenizer::TokenKind) -> LexKind {
    match k {
        full_moon::tokenizer::TokenKind::Eof => LexKind::Eof,
        full_moon::tokenizer::TokenKind::Identifier => LexKind::Identifier,
        full_moon::tokenizer::TokenKind::MultiLineComment => LexKind::MultiLineComment,
        full_moon::tokenizer::TokenKind::Number => LexKind::Number,
        full_moon::tokenizer::TokenKind::Shebang => LexKind::Shebang,
        full_moon::tokenizer::TokenKind::SingleLineComment => LexKind::SingleLineComment,
        full_moon::tokenizer::TokenKind::StringLiteral => LexKind::StringLiteral,
        full_moon::tokenizer::TokenKind::Symbol => LexKind::Symbol,
        _ => LexKind::Whitespace,
    }
}

/// Relies on `full_moon::tokenizer::Position::line` and `character`.
#[verifier::external_body]
fn lua_position(p: full_moon::tokenizer::Position) -> Location {
    Location { line: p.line(), character: p.character() }
}

/// Relies on `full_moon::tokenizer::tokens`: it tokenizes `code` (whitespace
/// and comments included, an end-of-file token last) or returns its error.
/// Each token keeps its kind, its text as `Display` writes it, and its positions.
#[verifier::external_body]
fn lua_tokenize(code: &str) -> (r: Result<Vec<Token>, full_moon::tokenizer::TokenizerError>)
    ensures
        match r {
            Ok(v) => lua_tokens(code@) == Some(token_views(v@)),
            Err(_) => lua_tokens(code@) is None,
        },
{
    full_moon::tokenizer::tokens(code).map(|v| v.iter().map(|t| Token {
        kind: lua_kind(t.token_kind()),
        text: t.to_string(),
        start: lua_position(t.start_position()),
        end: lua_position(t.end_position()),
    }).collect())
}

/// Tokenizes Lua source; `None` where the tokenizer rejects it.
pub fn tokenize(code: &str) -> (r: Option<Vec<Token>>)
    ensures
        match r {
            Some(v) => lua_tokens(code@) == Some(token_views(v@)),
            None => lua_tokens(code@) is None,
        },
{
    match lua_tokenize(code) {
        Ok(v) => Some(v),
        Err(_) => None,
    }
}

} // verus!
