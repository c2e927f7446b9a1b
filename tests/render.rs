use yartl::ast::{Expression, Statement};
use yartl::interpreter::RuntimeError;
use yartl::json::{Json, Member};
use yartl::lexer::{LexError, TokenKind};
use yartl::parser::{parse, ParseError};
use yartl::{render, tokenize, Error, Interperter};

fn chars(s: &str) -> Vec<char> {
    s.chars().collect()
}

fn string(s: &str) -> Json {
    Json::Str(chars(s))
}

fn object(entries: Vec<(&str, Json)>) -> Json {
    Json::Object(
        entries
            .into_iter()
            .map(|(k, v)| Member { key: chars(k), value: v })
            .collect(),
    )
}

fn strings(items: &[&str]) -> Json {
    Json::Array(items.iter().map(|s| string(s)).collect())
}

#[test]
fn it_works() {
    let context = object(vec![("items", strings(&["1", "2", "3"]))]);
    let out = render("\nYoo {{ for i in items }} yes {{ end }}\n", &context).unwrap();
    assert_eq!(out, "\nYoo  yes  yes  yes \n");
}

#[test]
fn plain_text_renders_unchanged() {
    let context = object(vec![]);
    for text in ["", "hello", "a { b } c", "{ {", "}} closing only", "ünïcödé\n\ttext"] {
        assert_eq!(render(text, &context).unwrap(), text);
    }
}

#[test]
fn for_over_empty_array_renders_nothing() {
    let context = object(vec![("items", Json::Array(vec![])), ("x", string("v"))]);
    let out = render("{{ for i in items }}body {{ x }} {{ i.q }}{{ end }}", &context).unwrap();
    assert_eq!(out, "");
}

#[test]
fn for_renders_each_item() {
    let context = object(vec![("items", strings(&["1", "2", "3"]))]);
    assert_eq!(render("{{ for i in items }}{{ i }}{{ end }}", &context).unwrap(), "123");
}

#[test]
fn missing_field_renders_null() {
    let context = object(vec![("a", object(vec![]))]);
    assert_eq!(render("{{ a.b }}", &context).unwrap(), "null");
}

#[test]
fn field_of_non_object_fails() {
    let context = object(vec![("a", string("x"))]);
    assert_eq!(render("{{ a.b }}", &context), Err(Error::Runtime(RuntimeError::NotAnObject)));
}

#[test]
fn nested_loops_bind_independently() {
    let context = object(vec![("rows", Json::Array(vec![object(vec![("cols", strings(&["x", "y"]))])]))]);
    let template = "{{ for r in rows }}{{ for c in r.cols }}{{ c }}{{ end }}{{ end }}";
    assert_eq!(render(template, &context).unwrap(), "xy");
}

#[test]
fn inner_loop_shadows_outer_binding() {
    let context = object(vec![("i", string("top")), ("xs", strings(&["a", "b"]))]);
    let template = "{{ for i in xs }}{{ for i in xs }}{{ i }}{{ end }}{{ i }};{{ end }}{{ i }}";
    assert_eq!(render(template, &context).unwrap(), "aba;abb;top");
}

#[test]
fn if_else_chooses_branch() {
    let template = "{{ if a == \"1\" }}then{{ else }}else{{ end }}";
    let one = object(vec![("a", string("1"))]);
    let two = object(vec![("a", string("2"))]);
    assert_eq!(render(template, &one).unwrap(), "then");
    assert_eq!(render(template, &two).unwrap(), "else");
}

#[test]
fn if_without_else_renders_nothing_when_false() {
    let context = object(vec![("a", string("2"))]);
    assert_eq!(render("[{{ if a == \"1\" }}yes{{ end }}]", &context).unwrap(), "[]");
}

#[test]
fn unmatched_end_is_a_parse_error() {
    let context = object(vec![]);
    let r = render("text {{ end }}", &context);
    assert_eq!(
        r,
        Err(Error::Parse(ParseError { expected: None, found: Some(TokenKind::End) }))
    );
    let toks = tokenize("{{ end }}").unwrap();
    assert!(parse(&toks).is_err());
}

#[test]
fn rendering_twice_gives_the_same_output() {
    let context = object(vec![("items", strings(&["p", "q"])), ("n", Json::Number(chars("2.5")))]);
    let template = "{{ for i in items }}<{{ i }}:{{ n }}>{{ end }}";
    let first = render(template, &context).unwrap();
    let second = render(template, &context).unwrap();
    assert_eq!(first, second);
    assert_eq!(first, "<p:2.5><q:2.5>");
}

#[test]
fn scalars_render_as_text() {
    let context = object(vec![
        ("n", Json::Number(chars("42"))),
        ("t", Json::Bool(true)),
        ("f", Json::Bool(false)),
        ("z", Json::Null),
    ]);
    assert_eq!(render("{{ n }} {{ t }} {{ f }} {{ z }} {{ 'lit' }}", &context).unwrap(), "42 true false null lit");
}

#[test]
fn composite_values_are_not_renderable() {
    let context = object(vec![("a", strings(&["x"])), ("o", object(vec![]))]);
    assert_eq!(render("{{ a }}", &context), Err(Error::Runtime(RuntimeError::NotRenderable)));
    assert_eq!(render("{{ o }}", &context), Err(Error::Runtime(RuntimeError::NotRenderable)));
}

#[test]
fn undefined_name_fails() {
    let context = object(vec![]);
    assert_eq!(render("{{ nope }}", &context), Err(Error::Runtime(RuntimeError::UndefinedName)));
}

#[test]
fn loop_over_non_array_fails() {
    let context = object(vec![("s", string("abc"))]);
    assert_eq!(
        render("{{ for c in s }}{{ c }}{{ end }}", &context),
        Err(Error::Runtime(RuntimeError::NotAnArray))
    );
}

#[test]
fn non_boolean_condition_fails() {
    let context = object(vec![("s", string("abc"))]);
    assert_eq!(
        render("{{ if s }}x{{ end }}", &context),
        Err(Error::Runtime(RuntimeError::NotABoolean))
    );
    assert_eq!(render("{{ !s }}", &context), Err(Error::Runtime(RuntimeError::NotABoolean)));
}

#[test]
fn logical_operators_and_short_circuit() {
    let context = object(vec![("a", string("1")), ("b", string("2"))]);
    assert_eq!(render("{{ a == \"1\" && b == \"2\" }}", &context).unwrap(), "true");
    assert_eq!(render("{{ a == \"2\" || b != \"2\" }}", &context).unwrap(), "false");
    assert_eq!(render("{{ !(a == \"1\") }}", &context), Err(Error::Lex(LexError::UnexpectedChar)));
    assert_eq!(render("{{ a == \"2\" && missing }}", &context).unwrap(), "false");
    assert_eq!(render("{{ a == \"1\" || missing }}", &context).unwrap(), "true");
    assert_eq!(
        render("{{ a == \"1\" && missing }}", &context),
        Err(Error::Runtime(RuntimeError::UndefinedName))
    );
}

#[test]
fn equality_is_structural_across_kinds() {
    let context = object(vec![
        ("x", strings(&["a", "b"])),
        ("y", strings(&["a", "b"])),
        ("z", strings(&["a"])),
        ("n", Json::Number(chars("1"))),
        ("s", string("1")),
    ]);
    assert_eq!(render("{{ x == y }}", &context).unwrap(), "true");
    assert_eq!(render("{{ x == z }}", &context).unwrap(), "false");
    assert_eq!(render("{{ n == s }}", &context).unwrap(), "false");
    assert_eq!(render("{{ n != s }}", &context).unwrap(), "true");
}

#[test]
fn lex_errors() {
    let context = object(vec![]);
    assert_eq!(render("{{ \"open", &context), Err(Error::Lex(LexError::UnterminatedString)));
    assert_eq!(render("text {{ a ", &context), Err(Error::Lex(LexError::UnterminatedDirective)));
    assert_eq!(render("{{ a + b }}", &context), Err(Error::Lex(LexError::UnexpectedChar)));
}

#[test]
fn parse_errors_name_expected_and_found() {
    let context = object(vec![("items", strings(&[]))]);
    assert_eq!(
        render("{{ for i items }}{{ end }}", &context),
        Err(Error::Parse(ParseError { expected: Some(TokenKind::In), found: Some(TokenKind::Identifier) }))
    );
    assert_eq!(
        render("{{ }}", &context),
        Err(Error::Parse(ParseError { expected: None, found: Some(TokenKind::CloseBraces) }))
    );
    assert_eq!(
        render("{{ for i in items }}x", &context),
        Err(Error::Parse(ParseError { expected: Some(TokenKind::OpenBraces), found: None }))
    );
    assert_eq!(
        render("{{ a b }}", &context),
        Err(Error::Parse(ParseError { expected: Some(TokenKind::CloseBraces), found: Some(TokenKind::Identifier) }))
    );
}

#[test]
fn tokens_of_a_template() {
    let toks = tokenize("a{{ for x in y.z }}{{ \"s\" != b && !c || d }}").unwrap();
    let kinds: Vec<TokenKind> = toks.iter().map(|t| t.kind).collect();
    assert_eq!(
        kinds,
        vec![
            TokenKind::TemplateLiteral,
            TokenKind::OpenBraces,
            TokenKind::For,
            TokenKind::Identifier,
            TokenKind::In,
            TokenKind::Identifier,
            TokenKind::Dot,
            TokenKind::Identifier,
            TokenKind::CloseBraces,
            TokenKind::OpenBraces,
            TokenKind::StringLiteral,
            TokenKind::NotEquals,
            TokenKind::Identifier,
            TokenKind::And,
            TokenKind::Not,
            TokenKind::Identifier,
            TokenKind::Or,
            TokenKind::Identifier,
            TokenKind::CloseBraces,
        ]
    );
    assert_eq!(toks[0].text, chars("a"));
    assert_eq!(toks[10].text, chars("s"));
    assert_eq!(toks[7].text, chars("z"));
}

#[test]
fn parse_builds_left_nested_paths() {
    let toks = tokenize("{{ a.b.c }}").unwrap();
    let prog = parse(&toks).unwrap();
    assert_eq!(prog.len(), 1);
    match &prog[0] {
        Statement::Output(Expression::PathAccess(base, c)) => {
            assert_eq!(*c, chars("c"));
            match &**base {
                Expression::PathAccess(inner, b) => {
                    assert_eq!(*b, chars("b"));
                    assert!(matches!(&**inner, Expression::Variable(a) if *a == chars("a")));
                }
                _ => panic!("expected a nested path"),
            }
        }
        _ => panic!("expected an output statement"),
    }
}

#[test]
fn interpreter_appends_output() {
    let context = object(vec![("name", string("world"))]);
    let prog = parse(&tokenize("hello {{ name }}!").unwrap()).unwrap();
    let mut it = Interperter::new(context);
    it.interpret(&prog).unwrap();
    it.interpret(&prog).unwrap();
    assert_eq!(it.result, "hello world!hello world!");
    let bad = parse(&tokenize("{{ missing }}").unwrap()).unwrap();
    assert_eq!(it.interpret(&bad), Err(RuntimeError::UndefinedName));
    assert_eq!(it.result, "hello world!hello world!");
}

#[test]
fn object_equality_ignores_entry_order() {
    let context = object(vec![
        ("p", object(vec![("a", Json::Null), ("b", Json::Null)])),
        ("q", object(vec![("b", Json::Null), ("a", Json::Null)])),
        ("r", object(vec![("a", Json::Null)])),
        ("s", object(vec![("a", Json::Null), ("b", string("x"))])),
    ]);
    assert_eq!(render("{{ p == q }}", &context).unwrap(), "true");
    assert_eq!(render("{{ q == p }}", &context).unwrap(), "true");
    assert_eq!(render("{{ p != q }}", &context).unwrap(), "false");
    assert_eq!(render("{{ p == r }}", &context).unwrap(), "false");
    assert_eq!(render("{{ r == p }}", &context).unwrap(), "false");
    assert_eq!(render("{{ p == s }}", &context).unwrap(), "false");
}

#[test]
fn object_equality_takes_first_entry_of_a_key() {
    let context = object(vec![
        ("d", object(vec![("a", string("1")), ("a", string("2"))])),
        ("e", object(vec![("a", string("1"))])),
        ("f", object(vec![("a", string("2"))])),
    ]);
    assert_eq!(render("{{ d.a }}", &context).unwrap(), "1");
    assert_eq!(render("{{ d == e }}", &context).unwrap(), "true");
    assert_eq!(render("{{ e == d }}", &context).unwrap(), "true");
    assert_eq!(render("{{ d == f }}", &context).unwrap(), "false");
}

#[test]
fn nested_objects_in_arrays_compare_as_mappings() {
    let context = object(vec![
        ("x", Json::Array(vec![object(vec![("k", string("1")), ("m", Json::Bool(true))])])),
        ("y", Json::Array(vec![object(vec![("m", Json::Bool(true)), ("k", string("1"))])])),
    ]);
    assert_eq!(render("{{ x == y }}", &context).unwrap(), "true");
}

#[test]
fn unmatched_end_after_output_fails_before_evaluation() {
    let empty = object(vec![]);
    let r = render("{{ x }}{{ end }}", &empty);
    assert!(matches!(r, Err(Error::Parse(_))));
    let r = render("{{ end }}", &empty);
    assert!(matches!(r, Err(Error::Parse(_))));
}
