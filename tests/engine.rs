use lualint::ast::{
    Block, Expression, Field, FunctionBody, FunctionDeclaration, FunctionName, If, Stmt,
    TableConstructor, Term, TokenRef, TokenRun,
};
use lualint::ignore::IgnoreRanges;
use lualint::jsonc::strip_jsonc_comments;
use lualint::lint::{all_clear, drive_tokens, lint_src, trim_lua_comments, Linter};
use lualint::lint_visitor::{lint_ast, lint_block, lint_table_ctor};
use lualint::ast::Ast;
use lualint::node::NodeKey;
use lualint::registry::Registry;
use lualint::report::Pos;
use lualint::rules::table_ctor_comma::TableCtorComma;
use lualint::rules::RuleState;
use lualint::linter_builder::{build_config_linter, build_linter, BuildError, LinterBuilder};
use lualint::report::LintReport;
use lualint::rules::{all_rules, rule_kind_of, RuleKind};
use lualint::token::{tokenize, LexKind, Location, Token};

fn reports<'a>(linter: &'a Linter, name: &str) -> &'a Vec<LintReport> {
    linter.rule_registry.get_ctx(name).unwrap().get_reports()
}

fn positions(v: &Vec<LintReport>) -> Vec<(usize, usize)> {
    v.iter().map(|r| (r.pos.line, r.pos.col)).collect()
}

fn linter_with(rules: &[(RuleKind, &str, usize)]) -> Linter {
    let mut b = LinterBuilder::new();
    for (k, n, s) in rules {
        b = b.with_rule(*k, n, *s).ok().unwrap();
    }
    b.build()
}

fn tok(kind: LexKind, text: &str, line: usize, start: usize, end: usize) -> Token {
    Token {
        kind,
        text: text.to_string(),
        start: Location { line, character: start },
        end: Location { line, character: end },
    }
}

fn tref(text: &str, line: usize, col: usize) -> TokenRef {
    TokenRef {
        leading: vec![],
        token: tok(LexKind::Symbol, text, line, col, col + text.chars().count()),
        trailing: vec![],
    }
}

fn tref_trivia(text: &str, line: usize, col: usize, leading: Vec<Token>, trailing: Vec<Token>) -> TokenRef {
    TokenRef { leading, token: tok(LexKind::Identifier, text, line, col, col + text.chars().count()), trailing }
}

fn atom(text: &str, line: usize, col: usize) -> Expression {
    Expression::Value(Box::new(Term::Atom(TokenRun { tokens: vec![tref(text, line, col)] })))
}

fn empty_block() -> Block {
    Block { stmts: vec![], last_stmt: None }
}

fn func_decl(name: &str, line: usize, trailing_newlines: usize, leading_newlines: usize) -> Stmt {
    let nl = |n: usize| -> Vec<Token> {
        if n == 0 { vec![] } else { vec![tok(LexKind::Whitespace, &"\n".repeat(n), line, 1, 1)] }
    };
    Stmt::FunctionDeclaration(FunctionDeclaration {
        function_token: tref_trivia("function", line, 1, nl(leading_newlines), vec![]),
        name: FunctionName { names: vec![(tref(name, line, 10), None)], method: None },
        body: FunctionBody {
            open: tref("(", line, 11),
            close: tref(")", line, 12),
            parameters: vec![],
            block: empty_block(),
            end_token: tref_trivia("end", line, 14, vec![], nl(trailing_newlines)),
        },
    })
}

#[test]
fn test_trim_lua_comments_inline_comment() {
    let input = "print(\"Hello, world!\") -- This is a comment";
    let expected_output = "print(\"Hello, world!\") ";
    assert_eq!(trim_lua_comments(input).unwrap(), expected_output);
}

#[test]
fn test_trim_lua_comments_block_comment() {
    let input = r#"print("Hello, world!") --[[
This is a block comment
on multiple lines
]] print("Goodbye, world!")"#;
    let expected_output = "print(\"Hello, world!\")  print(\"Goodbye, world!\")";
    assert_eq!(trim_lua_comments(input).unwrap(), expected_output);
}

#[test]
fn test_trim_lua_comments_no_comment() {
    let input = "print(\"Hello, world!\")";
    let expected_output = "print(\"Hello, world!\")";
    assert_eq!(trim_lua_comments(input).unwrap(), expected_output);
}

#[test]
fn test_trim_lua_comments_empty_input() {
    let input = "";
    let expected_output = "";
    assert_eq!(trim_lua_comments(input).unwrap(), expected_output);
}

#[test]
fn test_trim_lua_comments_inline_comment_at_end_of_line() {
    let input = "print(\"Hello, world!\") -- This is a comment\n";
    let expected_output = "print(\"Hello, world!\") \n";
    assert_eq!(trim_lua_comments(input).unwrap(), expected_output);
}

#[test]
fn test_trim_lua_comments_block_comment_on_single_line() {
    let input = "print(\"Hello, world!\") --[[This is a block comment on a single line]] print(\"Goodbye, world!\")";
    let expected_output = "print(\"Hello, world!\")  print(\"Goodbye, world!\")";
    assert_eq!(trim_lua_comments(input).unwrap(), expected_output);
}

#[test]
fn test_trim_lua_comments_nested_block_comment() {
    let input = r#"
        print("Hello, world!") --[=[
        This is a block comment
        on multiple lines
        --[[
            This is a nested block comment
        ]]--
    ]=] print("Goodbye, world!")"#;
    let expected_output = "
        print(\"Hello, world!\")  print(\"Goodbye, world!\")";

    assert_eq!(trim_lua_comments(input).unwrap(), expected_output);
}

#[test]
fn trim_lua_comments_rejects_unclosed_comment() {
    assert!(trim_lua_comments("--[[ unclosed").is_none());
}

#[test]
fn tokenize_keeps_text_and_positions() {
    let ts = tokenize("local x = 1").unwrap();
    assert_eq!(ts[0].kind, LexKind::Symbol);
    assert_eq!(ts[0].text, "local");
    assert_eq!((ts[0].start.line, ts[0].start.character, ts[0].end.character), (1, 1, 6));
    assert_eq!(ts[2].text, "x");
    assert_eq!(ts[ts.len() - 1].kind, LexKind::Eof);
}

#[test]
fn jsonc_line_comment_removed() {
    assert_eq!(strip_jsonc_comments("{\"a\": 1} // hi", false), "{\"a\": 1}\n");
}

#[test]
fn jsonc_block_comment_kept_as_blanks() {
    assert_eq!(strip_jsonc_comments("{/*x*/\"a\": 1}", true), "{      \"a\": 1}\n");
    assert_eq!(strip_jsonc_comments("{/*x*/\"a\": 1}", false), "{\"a\": 1}\n");
}

#[test]
fn jsonc_nested_block_comments() {
    assert_eq!(strip_jsonc_comments("1 /* a /* b */ c */ 2", false), "1  2\n");
}

#[test]
fn jsonc_comment_markers_inside_strings_stay() {
    assert_eq!(strip_jsonc_comments("\"a//b\"", false), "\"a//b\"\n");
}

#[test]
fn jsonc_every_line_ends_with_break() {
    assert_eq!(strip_jsonc_comments("a\nb\n", false), "a\nb\n\n");
    assert_eq!(strip_jsonc_comments("", false), "\n");
}

#[test]
fn ignore_ranges_from_csv() {
    let ign = IgnoreRanges::from_csv("f.lua,1,2\nf.lua,4,4");
    assert!(ign.is_ignored("f.lua", 1));
    assert!(ign.is_ignored("f.lua", 2));
    assert!(!ign.is_ignored("f.lua", 3));
    assert!(ign.is_ignored("f.lua", 4));
    assert!(!ign.is_ignored("f.lua", 5));
    assert!(!ign.is_ignored("g.lua", 1));
}

#[test]
fn ignore_ranges_skip_malformed_lines() {
    let ign = IgnoreRanges::from_csv("bad line\nf.lua,x,3\nf.lua,1,2,3\n\nf.lua,5,6\r\n");
    assert!(!ign.is_ignored("f.lua", 1));
    assert!(!ign.is_ignored("f.lua", 3));
    assert!(ign.is_ignored("f.lua", 5));
    assert!(ign.is_ignored("f.lua", 6));
    assert_eq!(ign.file_ranges.len(), 1);
}

#[test]
fn ignore_ranges_add_groups_by_file() {
    let mut ign = IgnoreRanges::new();
    ign.add("a", 1, 1);
    ign.add("b", 3, 9);
    ign.add("a", 7, 8);
    assert_eq!(ign.file_ranges.len(), 2);
    assert!(ign.is_ignored("a", 7));
    assert!(!ign.is_ignored("a", 3));
    assert!(ign.is_ignored("b", 3));
}

#[test]
fn long_line_without_trailing_newline() {
    let src = format!("b = {{{}}}", " ".repeat(82));
    assert_eq!(src.chars().count(), 88);
    let mut linter = linter_with(&[(RuleKind::MaxColumnWidth, "max_column_width", 80), (RuleKind::EofBlankLine, "eof_blank_line", 0)]);
    drive_tokens(&src, &mut linter).unwrap();
    let eof = reports(&linter, "eof_blank_line");
    assert_eq!(positions(eof), vec![(0, 0)]);
    assert_eq!(eof[0].msg, "File is expected to end with a blank line, but does not");
    let wide = reports(&linter, "max_column_width");
    assert_eq!(positions(wide), vec![(1, 81)]);
    assert_eq!(wide[0].msg, "Line is expected to be at most 80 characters, but is 87 characters");
}

#[test]
fn long_line_reported_at_column_past_limit() {
    let src = format!("{} {}", "a".repeat(80), "b".repeat(7));
    assert_eq!(src.chars().count(), 88);
    let mut linter = linter_with(&[(RuleKind::MaxColumnWidth, "max_column_width", 80), (RuleKind::EofBlankLine, "eof_blank_line", 0)]);
    drive_tokens(&src, &mut linter).unwrap();
    assert_eq!(positions(reports(&linter, "eof_blank_line")), vec![(0, 0)]);
    assert_eq!(positions(reports(&linter, "max_column_width")), vec![(1, 81)]);
}

#[test]
fn test_ignore_lines() {
    let a = "a".repeat(76);
    let src = format!("line1 = 1\nline2 = '{a}'\nline3 = '{a}'\nline4 = '{a}'\nline5 = '{a}'\n");
    let mut linter = build_config_linter("{\"max_column_width\": {}}").ok().unwrap();
    drive_tokens(&src, &mut linter).unwrap();
    let ign = IgnoreRanges::from_csv("test_ignore_lines.txt,1,2\ntest_ignore_lines.txt,4,4");
    let all = reports(&linter, "max_column_width");
    assert_eq!(all.len(), 4);
    let kept: Vec<(usize, usize)> = ign
        .kept("test_ignore_lines.txt", all)
        .into_iter()
        .map(|i| (all[i].pos.line, all[i].pos.col))
        .collect();
    assert_eq!(kept, vec![(3, 81), (5, 81)]);
    assert_eq!(ign.kept("other.txt", all).len(), 4);
    assert!(!all_clear(&linter, "test_ignore_lines.txt", Some(&ign)));
    let everything = IgnoreRanges::from_csv("test_ignore_lines.txt,1,5");
    assert!(all_clear(&linter, "test_ignore_lines.txt", Some(&everything)));
    assert!(!all_clear(&linter, "test_ignore_lines.txt", None));
}

#[test]
fn line_of_exactly_the_limit_is_not_reported() {
    let src = format!("{}\n{}\n", "a".repeat(80), "b".repeat(81));
    let mut linter = linter_with(&[(RuleKind::MaxColumnWidth, "w", 80)]);
    drive_tokens(&src, &mut linter).unwrap();
    assert_eq!(positions(reports(&linter, "w")), vec![(2, 81)]);
}

#[test]
fn width_reports_once_per_line_at_first_token_past_limit() {
    let src = "aaaa bbbb cccc\ndd\neeeeeeee\n";
    let mut linter = linter_with(&[(RuleKind::MaxColumnWidth, "w", 6)]);
    drive_tokens(src, &mut linter).unwrap();
    assert_eq!(positions(reports(&linter, "w")), vec![(1, 7), (3, 7)]);
}

#[test]
fn clean_source_gives_no_diagnostics() {
    let mut linter = build_config_linter(
        "{\"eof_blank_line\": {}, \"max_column_width\": {}, \"func_separation\": {}, \"table_ctor_comma\": {}, \"one_line_before_else\": {}}",
    )
    .ok()
    .unwrap();
    drive_tokens("local x = 1\n", &mut linter).unwrap();
    let block = Block { stmts: vec![(func_decl("f", 1, 0, 0), None)], last_stmt: None };
    lint_block(&mut linter, &block);
    assert_eq!(block.stmts.len(), 1);
    for (_, ctx) in linter.rule_registry.get_all_ctx() {
        assert!(ctx.get_reports().is_empty());
    }
}

#[test]
fn preprocessors_chain_in_binding_order() {
    let src = "x = 1\n-- trailing comment";
    let mut first = linter_with(&[(RuleKind::NoTrailingSpace, "ts", 0), (RuleKind::EofBlankLine, "eof", 0)]);
    let out = lint_src(src, &mut first);
    assert_eq!(out, "x = 1\n");
    assert!(reports(&first, "eof").is_empty());
    let mut second = linter_with(&[(RuleKind::EofBlankLine, "eof", 0), (RuleKind::NoTrailingSpace, "ts", 0)]);
    let out = lint_src(src, &mut second);
    assert_eq!(out, "x = 1\n");
    assert_eq!(positions(reports(&second, "eof")), vec![(0, 0)]);
}

#[test]
fn trailing_space_reported_at_line() {
    let mut linter = linter_with(&[(RuleKind::NoTrailingSpace, "ts", 0)]);
    lint_src("a = 1  \nb = 2\nc = 3\t\n", &mut linter);
    let r = reports(&linter, "ts");
    assert_eq!(positions(r), vec![(1, 3), (3, 2)]);
    assert_eq!(r[0].msg, "Line ends with trailing whitespace");
}

fn table(fields: Vec<(Field, Option<TokenRef>)>, close_line: usize) -> Stmt {
    Stmt::FunctionCall(lualint::ast::FunctionCall {
        prefix: lualint::ast::Prefix::Name(tref("f", 1, 1)),
        suffixes: vec![lualint::ast::Suffix::Call(lualint::ast::Call::AnonymousCall(
            lualint::ast::FunctionArgs::TableConstructor(TableConstructor {
                open: tref("{", 1, 2),
                close: tref("}", close_line, 1),
                fields,
            }),
        ))],
    })
}

#[test]
fn rules_on_same_hook_keep_their_own_reports() {
    let mut linter = linter_with(&[
        (RuleKind::TableCtorComma, "first", 0),
        (RuleKind::FuncSeparation, "sep", 2),
        (RuleKind::TableCtorComma, "second", 0),
    ]);
    let block = Block { stmts: vec![(table(vec![(Field::NoKey(atom("1", 2, 3)), None)], 3), None)], last_stmt: None };
    lint_block(&mut linter, &block);
    assert_eq!(positions(reports(&linter, "first")), vec![(2, 4)]);
    assert_eq!(positions(reports(&linter, "second")), vec![(2, 4)]);
    assert!(reports(&linter, "sep").is_empty());
    assert_eq!(reports(&linter, "first")[0].msg, "Table constructor should have a comma after the last field");
}

#[test]
fn table_with_trailing_comma_or_same_line_brace_is_fine() {
    let mut linter = linter_with(&[(RuleKind::TableCtorComma, "t", 0)]);
    let with_comma = table(vec![(Field::NoKey(atom("1", 2, 3)), Some(tref(",", 2, 4)))], 3);
    let same_line = table(vec![(Field::NoKey(atom("1", 1, 3)), None)], 1);
    let block = Block { stmts: vec![(with_comma, None), (same_line, None)], last_stmt: None };
    lint_block(&mut linter, &block);
    assert!(reports(&linter, "t").is_empty());
}

#[test]
fn functions_too_close_are_reported() {
    let mut linter = linter_with(&[(RuleKind::FuncSeparation, "sep", 2)]);
    let block = Block {
        stmts: vec![(func_decl("a", 1, 1, 0), None), (func_decl("b", 2, 1, 0), None), (func_decl("c", 5, 0, 0), None)],
        last_stmt: None,
    };
    lint_block(&mut linter, &block);
    let r = reports(&linter, "sep");
    assert_eq!(positions(r), vec![(1, 17), (2, 17)]);
    assert_eq!(
        r[0].msg,
        "Function declaration 'b' should be separated from the previous function declaration by at least 2 empty lines"
    );
}

#[test]
fn functions_far_apart_are_fine() {
    let mut linter = linter_with(&[(RuleKind::FuncSeparation, "sep", 1)]);
    let block = Block { stmts: vec![(func_decl("a", 1, 1, 0), None), (func_decl("b", 3, 0, 1), None)], last_stmt: None };
    lint_block(&mut linter, &block);
    assert!(reports(&linter, "sep").is_empty());
}

fn call_stmt(line: usize) -> Stmt {
    Stmt::Label(TokenRun { tokens: vec![tref("x", line, 3)] })
}

#[test]
fn else_right_after_branch_is_reported() {
    let mut linter = linter_with(&[(RuleKind::OneLineBeforeElse, "else", 0)]);
    let if_stmt = If {
        if_token: tref("if", 1, 1),
        condition: atom("c", 1, 4),
        then_token: tref("then", 1, 6),
        block: Block { stmts: vec![(call_stmt(2), None)], last_stmt: None },
        else_if: vec![],
        else_token: Some(tref("else", 3, 1)),
        else_block: Some(Block { stmts: vec![(call_stmt(4), None)], last_stmt: None }),
        end_token: tref("end", 5, 1),
    };
    let block = Block { stmts: vec![(Stmt::If(if_stmt), None)], last_stmt: None };
    lint_block(&mut linter, &block);
    let r = reports(&linter, "else");
    assert_eq!(positions(r), vec![(3, 1)]);
    assert_eq!(r[0].msg, "There should be a line before else");
}

#[test]
fn walk_reaches_nested_tables() {
    let mut linter = linter_with(&[(RuleKind::TableCtorComma, "t", 0)]);
    let if_stmt = If {
        if_token: tref("if", 1, 1),
        condition: atom("c", 1, 4),
        then_token: tref("then", 1, 6),
        block: Block { stmts: vec![(table(vec![(Field::NoKey(atom("1", 3, 3)), None)], 4), None)], last_stmt: None },
        else_if: vec![],
        else_token: None,
        else_block: None,
        end_token: tref("end", 5, 1),
    };
    let block = Block { stmts: vec![(Stmt::If(if_stmt), None)], last_stmt: None };
    lint_block(&mut linter, &block);
    assert_eq!(positions(reports(&linter, "t")), vec![(3, 4)]);
}

#[test]
fn duplicate_rule_name_is_refused() {
    let b = LinterBuilder::new().with_rule(RuleKind::EofBlankLine, "x", 0).ok().unwrap();
    assert!(matches!(b.with_rule(RuleKind::TableCtorComma, "x", 0), Err(BuildError::DuplicateRule)));
    let rules = vec![("eof_blank_line".to_string(), None), ("eof_blank_line".to_string(), None)];
    assert!(matches!(build_linter(&rules), Err(BuildError::DuplicateRule)));
}

#[test]
fn unknown_rule_is_refused() {
    assert!(matches!(build_config_linter("{\"nope\": {}}"), Err(BuildError::UnknownRule)));
    assert!(rule_kind_of("no_trailing_space").is_none());
    assert_eq!(rule_kind_of("table_ctor_comma"), Some(RuleKind::TableCtorComma));
}

#[test]
fn invalid_config_is_refused() {
    assert!(matches!(build_config_linter("[1, 2]"), Err(BuildError::InvalidConfig)));
    assert!(matches!(build_config_linter("not json"), Err(BuildError::InvalidConfig)));
}

#[test]
fn config_settings_are_read() {
    let mut linter = build_config_linter("{\n  // width\n  \"max_column_width\": {\"max_col\": 5}\n}").ok().unwrap();
    drive_tokens("abcdefgh\n", &mut linter).unwrap();
    assert_eq!(positions(reports(&linter, "max_column_width")), vec![(1, 6)]);
}

#[test]
fn catalog_lists_every_rule() {
    let names: Vec<&str> = all_rules().iter().map(|i| i.name).collect();
    assert_eq!(
        names,
        vec!["eof_blank_line", "func_separation", "max_column_width", "no_trailing_space", "one_line_before_else", "table_ctor_comma"]
    );
}

#[test]
fn leave_of_ancestor_runs_after_descendants() {
    let mut reg = Registry::new();
    reg.listen_enter("t", NodeKey::TableConstructor, RuleKind::TableCtorComma);
    reg.listen_leave("t", NodeKey::TableConstructor, RuleKind::TableCtorComma);
    assert!(reg.bind_ctx("t", RuleState::TableCtorComma(TableCtorComma { reports: vec![] })));
    assert!(!reg.bind_ctx("t", RuleState::TableCtorComma(TableCtorComma { reports: vec![] })));
    let mut linter = Linter { rule_registry: reg };
    let inner = TableConstructor {
        open: tref("{", 2, 5),
        close: tref("}", 4, 5),
        fields: vec![(Field::NoKey(atom("1", 3, 7)), None)],
    };
    let outer = TableConstructor {
        open: tref("{", 1, 5),
        close: tref("}", 5, 1),
        fields: vec![(Field::NoKey(Expression::Value(Box::new(Term::TableConstructor(inner)))), None)],
    };
    lint_table_ctor(&mut linter, &outer);
    assert_eq!(positions(reports(&linter, "t")), vec![(4, 6), (3, 8), (3, 8), (4, 6)]);
}

#[test]
fn position_takes_a_file() {
    let mut p = Pos::new(3, 4);
    assert_eq!(p.file, "");
    let q = p.with_file("a.lua".to_string());
    assert_eq!((q.file.as_str(), q.line, q.col), ("a.lua", 3, 4));
    assert_eq!(p.file, "a.lua");
}

#[test]
fn test_read_rules_from_file() {
    let enabled_rules = "{\n  // every rule that can be configured\n  \"eof_blank_line\": {},\n  \"func_separation\": {\"min_line\": 2},\n  \"max_column_width\": {\"max_col\": 100},\n  /* style */\n  \"one_line_before_else\": {},\n  \"table_ctor_comma\": {}\n}";
    let out = build_config_linter(enabled_rules);
    assert!(out.is_ok());
    let linter = out.ok().unwrap();
    assert!(!linter.rule_registry.get_all_ctx().is_empty());
    assert_eq!(linter.rule_registry.get_all_ctx().len(), 5);
}

#[test]
fn malformed_ignore_lines_are_listed() {
    assert_eq!(IgnoreRanges::malformed_lines("f,1,2\nbad\n\nf,x,1\r\nf,3,4\n"), vec![2, 4]);
    assert!(IgnoreRanges::malformed_lines("").is_empty());
}

#[test]
fn ignore_groups_keep_first_appearance_order() {
    let ign = IgnoreRanges::from_csv("b,1,1\na,2,3\nb,5,6\n");
    let groups: Vec<(&str, Vec<(usize, usize)>)> =
        ign.file_ranges.iter().map(|g| (g.file.as_str(), g.ranges.clone())).collect();
    assert_eq!(groups, vec![("b", vec![(1, 1), (5, 6)]), ("a", vec![(2, 3)])]);
}

#[test]
fn walk_returns_the_tree_unchanged() {
    let mut linter = linter_with(&[(RuleKind::TableCtorComma, "t", 0)]);
    let ast = Ast {
        nodes: Block { stmts: vec![(table(vec![(Field::NoKey(atom("1", 2, 3)), None)], 3), None)], last_stmt: None },
        eof: tref("", 4, 1),
    };
    let out = lint_ast(ast, &mut linter);
    assert_eq!(out.nodes.stmts.len(), 1);
    assert_eq!(out.eof.token.start.line, 4);
    assert_eq!(positions(reports(&linter, "t")), vec![(2, 4)]);
}

#[test]
fn separation_message_names_the_setting() {
    let mut linter = linter_with(&[(RuleKind::FuncSeparation, "sep", 3)]);
    let block = Block { stmts: vec![(func_decl("a", 1, 1, 0), None), (func_decl("zz", 2, 0, 0), None)], last_stmt: None };
    lint_block(&mut linter, &block);
    assert_eq!(
        reports(&linter, "sep")[0].msg,
        "Function declaration 'zz' should be separated from the previous function declaration by at least 3 empty lines"
    );
}
