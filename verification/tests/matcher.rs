//! Matching tests over hand-built concrete syntax trees.
//!
//! The trees mirror what a JavaScript parser produces for the snippets the
//! patterns are written in: interior nodes for grammar rules, leaves for
//! identifiers, numbers, keywords and punctuation, unnamed tokens included.

use treematch::matcher::{match_node_exact, match_node_recursive, match_single_kind};
use treematch::meta_var::Env;
use treematch::node::Node;

const PROGRAM: u64 = 1;
const CALL: u64 = 3;
const ARGS: u64 = 4;
const IDENT: u64 = 5;
const LEX_DECL: u64 = 6;
const VAR_DECL: u64 = 7;
const DECLARATOR: u64 = 8;
const NUMBER: u64 = 9;
const FUNC_DECL: u64 = 10;
const PARAMS: u64 = 11;
const BLOCK: u64 = 12;
const CLASS_DECL: u64 = 13;
const CLASS_BODY: u64 = 14;
const METHOD_DEF: u64 = 15;
const PROP_IDENT: u64 = 16;
const FOR_OF: u64 = 17;
const WHILE_STMT: u64 = 18;
const PAREN_EXPR: u64 = 19;
const ARRAY: u64 = 20;
const TRUE_KW: u64 = 21;
const FUNC_EXPR: u64 = 22;
const LPAREN: u64 = 30;
const RPAREN: u64 = 31;
const COMMA: u64 = 32;
const SEMI: u64 = 33;
const LBRACE: u64 = 34;
const RBRACE: u64 = 35;
const EQ_TOK: u64 = 36;
const CONST_KW: u64 = 37;
const VAR_KW: u64 = 38;
const LET_KW: u64 = 39;
const FUNCTION_KW: u64 = 40;
const CLASS_KW: u64 = 41;
const FOR_KW: u64 = 42;
const OF_KW: u64 = 43;
const WHILE_KW: u64 = 44;
const LBRACKET: u64 = 45;
const RBRACKET: u64 = 46;

fn leaf(kind: &str, kind_id: u64, named: bool, text: &str) -> Node {
    Node {
        kind: kind.to_string(),
        kind_id,
        named,
        text: text.to_string(),
        children: vec![],
    }
}

fn branch(kind: &str, kind_id: u64, text: &str, children: Vec<Node>) -> Node {
    Node {
        kind: kind.to_string(),
        kind_id,
        named: true,
        text: text.to_string(),
        children,
    }
}

fn ident(name: &str) -> Node {
    leaf("identifier", IDENT, true, name)
}

fn punct(text: &str, kind_id: u64) -> Node {
    leaf(text, kind_id, false, text)
}

fn number(text: &str) -> Node {
    leaf("number", NUMBER, true, text)
}

fn program(src: &str, children: Vec<Node>) -> Node {
    branch("program", PROGRAM, src, children)
}

/// A call `f(arg, arg, ...)`, commas and parentheses as unnamed tokens.
fn call(src: &str, fname: &str, args: Vec<Node>) -> Node {
    let mut ch = vec![punct("(", LPAREN)];
    for (i, a) in args.into_iter().enumerate() {
        if i > 0 {
            ch.push(punct(",", COMMA));
        }
        ch.push(a);
    }
    ch.push(punct(")", RPAREN));
    branch(
        "call_expression",
        CALL,
        src,
        vec![ident(fname), branch("arguments", ARGS, src, ch)],
    )
}

/// A declarator `name = value`.
fn declarator(src: &str, name: &str, value: &str) -> Node {
    branch(
        "variable_declarator",
        DECLARATOR,
        src,
        vec![ident(name), punct("=", EQ_TOK), number(value)],
    )
}

/// `const a = 123` or `let a = 123`: a lexical declaration.
fn lex_decl(src: &str, keyword: &str) -> Node {
    let (kw_id, kind_id) = match keyword {
        "const" => (CONST_KW, LEX_DECL),
        "let" => (LET_KW, LEX_DECL),
        _ => (VAR_KW, VAR_DECL),
    };
    let kind = if kind_id == LEX_DECL {
        "lexical_declaration"
    } else {
        "variable_declaration"
    };
    branch(
        kind,
        kind_id,
        src,
        vec![leaf(keyword, kw_id, false, keyword), declarator("a = 123", "a", "123")],
    )
}

fn formal_params() -> Node {
    branch("formal_parameters", PARAMS, "()", vec![punct("(", LPAREN), punct(")", RPAREN)])
}

/// `{ <stmt>; }`: a statement block, semicolon as a sibling token.
fn block(src: &str, stmts: Vec<Node>) -> Node {
    let mut ch = vec![punct("{", LBRACE)];
    for s in stmts.into_iter() {
        ch.push(s);
        ch.push(punct(";", SEMI));
    }
    ch.push(punct("}", RBRACE));
    branch("statement_block", BLOCK, src, ch)
}

/// `function <name>() { <body> }`.
fn func_decl(src: &str, name: &str, body: Node) -> Node {
    branch(
        "function_declaration",
        FUNC_DECL,
        src,
        vec![
            leaf("function", FUNCTION_KW, false, "function"),
            ident(name),
            formal_params(),
            body,
        ],
    )
}

fn matches_somewhere(goal: &Node, cand: &Node) -> bool {
    let mut env = Env::new();
    match_node_recursive(goal, cand, &mut env).is_some()
}

#[test]
fn test_simple_match() {
    let goal = lex_decl("const a = 123", "const");
    let cand = program("const a=123", vec![lex_decl("const a=123", "const")]);
    assert!(matches_somewhere(&goal, &cand));
    let other = program("var a = 123", vec![lex_decl("var a = 123", "var")]);
    assert!(!matches_somewhere(&goal, &other));
}

#[test]
fn test_nested_match() {
    let goal = lex_decl("const a = 123", "const");
    let in_function = program(
        "function() {const a= 123;}",
        vec![branch(
            "function_expression",
            FUNC_EXPR,
            "function() {const a= 123;}",
            vec![
                leaf("function", FUNCTION_KW, false, "function"),
                formal_params(),
                block("{const a= 123;}", vec![lex_decl("const a= 123", "const")]),
            ],
        )],
    );
    assert!(matches_somewhere(&goal, &in_function));

    let in_class = program(
        "class A { constructor() {const a= 123;}}",
        vec![branch(
            "class_declaration",
            CLASS_DECL,
            "class A { constructor() {const a= 123;}}",
            vec![
                leaf("class", CLASS_KW, false, "class"),
                ident("A"),
                branch(
                    "class_body",
                    CLASS_BODY,
                    "{ constructor() {const a= 123;}}",
                    vec![
                        punct("{", LBRACE),
                        branch(
                            "method_definition",
                            METHOD_DEF,
                            "constructor() {const a= 123;}",
                            vec![
                                leaf("property_identifier", PROP_IDENT, true, "constructor"),
                                formal_params(),
                                block("{const a= 123;}", vec![lex_decl("const a= 123", "const")]),
                            ],
                        ),
                        punct("}", RBRACE),
                    ],
                ),
            ],
        )],
    );
    assert!(matches_somewhere(&goal, &in_class));

    let in_loops = program(
        "for (let a of []) while (true) { const a = 123;}",
        vec![branch(
            "for_of_statement",
            FOR_OF,
            "for (let a of []) while (true) { const a = 123;}",
            vec![
                leaf("for", FOR_KW, false, "for"),
                punct("(", LPAREN),
                leaf("let", LET_KW, false, "let"),
                ident("a"),
                leaf("of", OF_KW, false, "of"),
                branch("array", ARRAY, "[]", vec![punct("[", LBRACKET), punct("]", RBRACKET)]),
                punct(")", RPAREN),
                branch(
                    "while_statement",
                    WHILE_STMT,
                    "while (true) { const a = 123;}",
                    vec![
                        leaf("while", WHILE_KW, false, "while"),
                        branch(
                            "parenthesized_expression",
                            PAREN_EXPR,
                            "(true)",
                            vec![
                                punct("(", LPAREN),
                                leaf("true", TRUE_KW, true, "true"),
                                punct(")", RPAREN),
                            ],
                        ),
                        block("{ const a = 123;}", vec![lex_decl("const a = 123", "const")]),
                    ],
                ),
            ],
        )],
    );
    assert!(matches_somewhere(&goal, &in_loops));
}

#[test]
fn test_should_exactly_match() {
    let goal = func_decl(
        "function foo() { let a = 123; }",
        "foo",
        block("{ let a = 123; }", vec![lex_decl("let a = 123", "let")]),
    );
    let same = program(
        "function foo() { let a = 123; }",
        vec![func_decl(
            "function foo() { let a = 123; }",
            "foo",
            block("{ let a = 123; }", vec![lex_decl("let a = 123", "let")]),
        )],
    );
    assert!(matches_somewhere(&goal, &same));
    let renamed = program(
        "function bar() { let a = 123; }",
        vec![func_decl(
            "function bar() { let a = 123; }",
            "bar",
            block("{ let a = 123; }", vec![lex_decl("let a = 123", "let")]),
        )],
    );
    assert!(!matches_somewhere(&goal, &renamed));
}

#[test]
fn test_match_inner() {
    let inner = func_decl(
        "function bar() {let a = 123; }",
        "bar",
        block("{let a = 123; }", vec![lex_decl("let a = 123", "let")]),
    );
    let cand = program(
        "function foo() { function bar() {let a = 123; }}",
        vec![branch(
            "function_declaration",
            FUNC_DECL,
            "function foo() { function bar() {let a = 123; }}",
            vec![
                leaf("function", FUNCTION_KW, false, "function"),
                ident("foo"),
                formal_params(),
                branch(
                    "statement_block",
                    BLOCK,
                    "{ function bar() {let a = 123; }}",
                    vec![punct("{", LBRACE), inner, punct("}", RBRACE)],
                ),
            ],
        )],
    );
    let goal = func_decl(
        "function bar() { let a = 123; }",
        "bar",
        block("{ let a = 123; }", vec![lex_decl("let a = 123", "let")]),
    );
    assert!(matches_somewhere(&goal, &cand));
    let goal_foo = func_decl(
        "function foo() { let a = 123; }",
        "foo",
        block("{ let a = 123; }", vec![lex_decl("let a = 123", "let")]),
    );
    assert!(!matches_somewhere(&goal_foo, &cand));
}

#[test]
fn test_single_ellipsis() {
    let goal = call("foo($$$)", "foo", vec![ident("$$$")]);
    let three = program("foo(a, b, c)", vec![call(
        "foo(a, b, c)",
        "foo",
        vec![ident("a"), ident("b"), ident("c")],
    )]);
    assert!(matches_somewhere(&goal, &three));
    let none = program("foo()", vec![call("foo()", "foo", vec![])]);
    assert!(matches_somewhere(&goal, &none));
}

#[test]
fn test_named_ellipsis() {
    let cand = program("foo(a, b, c)", vec![call(
        "foo(a, b, c)",
        "foo",
        vec![ident("a"), ident("b"), ident("c")],
    )]);
    let tail_c = call("foo($$$A, c)", "foo", vec![ident("$$$A"), ident("c")]);
    assert!(matches_somewhere(&tail_c, &cand));
    let tail_bc = call("foo($$$A, b, c)", "foo", vec![ident("$$$A"), ident("b"), ident("c")]);
    assert!(matches_somewhere(&tail_bc, &cand));
    let tail_abc = call(
        "foo($$$A, a, b, c)",
        "foo",
        vec![ident("$$$A"), ident("a"), ident("b"), ident("c")],
    );
    assert!(matches_somewhere(&tail_abc, &cand));
    let short = program("foo(b, c)", vec![call("foo(b, c)", "foo", vec![
        ident("b"),
        ident("c"),
    ])]);
    assert!(!matches_somewhere(&tail_abc, &short));
}

#[test]
fn test_leading_ellipsis() {
    let cand = program("foo(a, b, c)", vec![call(
        "foo(a, b, c)",
        "foo",
        vec![ident("a"), ident("b"), ident("c")],
    )]);
    let tail_c = call("foo($$$, c)", "foo", vec![ident("$$$"), ident("c")]);
    assert!(matches_somewhere(&tail_c, &cand));
    let tail_bc = call("foo($$$, b, c)", "foo", vec![ident("$$$"), ident("b"), ident("c")]);
    assert!(matches_somewhere(&tail_bc, &cand));
    let tail_abc = call(
        "foo($$$, a, b, c)",
        "foo",
        vec![ident("$$$"), ident("a"), ident("b"), ident("c")],
    );
    assert!(matches_somewhere(&tail_abc, &cand));
    let short = program("foo(b, c)", vec![call("foo(b, c)", "foo", vec![
        ident("b"),
        ident("c"),
    ])]);
    assert!(!matches_somewhere(&tail_abc, &short));
}

#[test]
fn test_trailing_ellipsis() {
    let cand = program("foo(a, b, c)", vec![call(
        "foo(a, b, c)",
        "foo",
        vec![ident("a"), ident("b"), ident("c")],
    )]);
    let after_a = call("foo(a, $$$)", "foo", vec![ident("a"), ident("$$$")]);
    assert!(matches_somewhere(&after_a, &cand));
    let after_ab = call("foo(a, b, $$$)", "foo", vec![ident("a"), ident("b"), ident("$$$")]);
    assert!(matches_somewhere(&after_ab, &cand));
    let after_abc = call(
        "foo(a, b, c, $$$)",
        "foo",
        vec![ident("a"), ident("b"), ident("c"), ident("$$$")],
    );
    let short = program("foo(b, c)", vec![call("foo(b, c)", "foo", vec![
        ident("b"),
        ident("c"),
    ])]);
    assert!(!matches_somewhere(&after_abc, &short));
}

#[test]
fn test_literal_self_match_leaves_env_empty() {
    let cand = program("const a=123", vec![lex_decl("const a=123", "const")]);
    let goal = program("const a=123", vec![lex_decl("const a=123", "const")]);
    let mut env = Env::new();
    let found = match_node_exact(&goal, &cand, &mut env);
    assert!(found.is_some());
    assert!(env.get("A").is_none());
    assert!(env.get("a").is_none());
}

#[test]
fn test_kind_mismatch_fails_fast() {
    let goal = branch("arguments", ARGS, "(a)", vec![ident("a")]);
    let cand = branch("array", ARRAY, "[a]", vec![ident("a")]);
    let mut env = Env::new();
    assert!(match_node_exact(&goal, &cand, &mut env).is_none());
}

#[test]
fn test_single_wildcard_captures_one_node() {
    let goal = ident("$A");
    let cand = number("123");
    let mut env = Env::new();
    let found = match_node_exact(&goal, &cand, &mut env);
    assert!(found.is_some());
    let bound = env.get("A").expect("the wildcard binds its candidate");
    assert_eq!(bound.text, "123");
    assert_eq!(bound.kind_id, NUMBER);
    assert!(env.get("B").is_none());
}

#[test]
fn test_anonymous_wildcard_binds_nothing() {
    let goal = ident("$_");
    let cand = number("123");
    let mut env = Env::new();
    assert!(match_node_exact(&goal, &cand, &mut env).is_some());
    assert!(env.get("_").is_none());
}

#[test]
fn test_named_ellipsis_leaf_fallback_binds_single_node() {
    let goal = ident("$$$A");
    let cand = number("7");
    let mut env = Env::new();
    assert!(match_node_exact(&goal, &cand, &mut env).is_some());
    let bound = env.get("A").expect("the single-leaf entry point binds one node");
    assert_eq!(bound.text, "7");
}

#[test]
fn test_anonymous_ellipsis_is_elastic_and_capture_free() {
    let goal = call("f($$$)", "f", vec![ident("$$$")]);
    for args in [vec![], vec![ident("a")], vec![ident("a"), ident("b"), ident("c")]] {
        let cand = program("f(...)", vec![call("f(...)", "f", args)]);
        let mut env = Env::new();
        assert!(match_node_recursive(&goal, &cand, &mut env).is_some());
        assert!(env.get("A").is_none());
    }
}

#[test]
fn test_sole_ellipsis_matches_childless_candidate() {
    let goal = branch("arguments", ARGS, "$$$", vec![ident("$$$")]);
    let cand = branch("arguments", ARGS, "", vec![]);
    let mut env = Env::new();
    assert!(match_node_exact(&goal, &cand, &mut env).is_some());
}

#[test]
fn test_leftover_candidate_children_fail_without_ellipsis() {
    let goal = branch("arguments", ARGS, "a", vec![ident("a")]);
    let cand = branch("arguments", ARGS, "a b", vec![ident("a"), ident("b")]);
    let mut env = Env::new();
    assert!(match_node_exact(&goal, &cand, &mut env).is_none());
    let elastic = branch("arguments", ARGS, "a $$$", vec![ident("a"), ident("$$$")]);
    let mut env2 = Env::new();
    assert!(match_node_exact(&elastic, &cand, &mut env2).is_some());
}

#[test]
fn test_adjacent_ellipses_consume_one_candidate_each() {
    let goal = call("f($$$, $$$)", "f", vec![ident("$$$"), ident("$$$")]);
    let two = program("f(a, b)", vec![call("f(a, b)", "f", vec![ident("a"), ident("b")])]);
    assert!(matches_somewhere(&goal, &two));
    // each ellipsis after the first asks for one candidate child of its own
    let none = program("f()", vec![call("f()", "f", vec![])]);
    assert!(!matches_somewhere(&goal, &none));
}

#[test]
fn test_failed_attempts_leave_bindings() {
    // the anchor scan tries `pair($B, c)` against `pair(a, d)` first: `$B`
    // binds `a` before the attempt fails, and the write is not rolled back
    let goal = branch("arguments", ARGS, "($$$, (B, c))", vec![
        ident("$$$"),
        branch("pair", PAREN_EXPR, "($B, c)", vec![ident("$B"), ident("c")]),
    ]);
    let cand = branch("arguments", ARGS, "((a, d))", vec![branch(
        "pair",
        PAREN_EXPR,
        "(a, d)",
        vec![ident("a"), ident("d")],
    )]);
    let mut env = Env::new();
    assert!(match_node_exact(&goal, &cand, &mut env).is_none());
    assert_eq!(env.get("B").expect("the speculative binding stays").text, "a");
}

#[test]
fn test_find_kind_first_preorder_and_capture_free() {
    let cand = program("foo(a, b)", vec![call("foo(a, b)", "foo", vec![
        ident("a"),
        ident("b"),
    ])]);
    let mut env = Env::new();
    let found = match_single_kind("identifier", &cand, &mut env).expect("an identifier exists");
    assert_eq!(found.text, "foo");
    assert!(env.get("foo").is_none());
    assert!(match_single_kind("statement_block", &cand, &mut env).is_none());
}
