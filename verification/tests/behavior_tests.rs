use rusty_handlebars::{
    add_builtins, optimize, AsBool, AsDisplay, AsDisplayHtml, BlockMap, Compiler, ErrorKind,
    Options,
};

fn make_map() -> BlockMap {
    let mut map = BlockMap::new();
    add_builtins(&mut map);
    map
}

fn compiler(root: Option<&str>, sink: &str) -> Compiler {
    Compiler::new(
        Options {
            root_var_name: root.map(|r| r.to_string()),
            write_var_name: sink.to_string(),
        },
        make_map(),
    )
}

fn compile(src: &str) -> String {
    compiler(Some("self"), "f").compile(src).unwrap().code
}

fn compile_err(src: &str) -> ErrorKind {
    compiler(Some("self"), "f").compile(src).unwrap_err().kind
}

#[test]
fn determinism_identical_runs() {
    let src = "{{#each things}}{{{@index}}}: {{name}}{{else}}none{{/each}}";
    let a = compiler(Some("self"), "f").compile(src).unwrap();
    let b = compiler(Some("self"), "f").compile(src).unwrap();
    assert_eq!(a.code, b.code);
    assert_eq!(a.uses().to_string(), b.uses().to_string());
}

#[test]
fn literal_only_single_write() {
    assert_eq!(compile("Hello world"), "write!(f, \"Hello world\")?;");
    assert_eq!(
        compile("quote \" brace { slash \\"),
        "write!(f, \"quote \\\" brace {{ slash \\\\\")?;"
    );
}

#[test]
fn parent_traversal_depth_rule() {
    assert_eq!(compile_err("{{../a}}"), ErrorKind::UnresolvableScopeReference);
    assert_eq!(
        compile("{{#with x}}{{../a}}{{/with}}"),
        "{let this_1 = self.x;write!(f, \"{}\", self.a.as_display_html())?;}"
    );
    assert_eq!(
        compile_err("{{#with x}}{{../../a}}{{/with}}"),
        ErrorKind::UnresolvableScopeReference
    );
    assert_eq!(
        compile("{{#with x}}{{#with y}}{{../../a}}{{/with}}{{/with}}"),
        "{let this_1 = self.x;{let this_2 = this_1.y;write!(f, \"{}\", self.a.as_display_html())?;}}"
    );
}

#[test]
fn counter_only_when_index_referenced() {
    let with_index = compile("{{#each xs}}{{@index}}{{/each}}");
    assert_eq!(
        with_index,
        "let mut i_1 = 0;for this_1 in self.xs{write!(f, \"{}\", i_1.as_display_html())?;i_1 += 1;}"
    );
    let without_index = compile("{{#each xs}}{{this}}{{/each}}");
    assert!(!without_index.contains("i_1"));
    assert!(!without_index.contains("empty"));
}

#[test]
fn if_else_branch_selection() {
    let rust = compile("{{#if cond}}A{{else}}B{{/if}}");
    assert_eq!(
        rust,
        "if self.cond.as_bool(){write!(f, \"A\")?;}else{write!(f, \"B\")?;}"
    );
    // The generated branch structure, replayed on a truthy and a falsy
    // sample: the truthy value reaches only the first arm, the falsy
    // value only the second.
    let render = |cond: bool| {
        if cond.as_bool() {
            "A".to_string()
        } else {
            "B".to_string()
        }
    };
    assert_eq!(render(true), "A");
    assert_eq!(render(false), "B");
    assert!(1i32.as_bool());
    assert!(!"".as_bool());
}

#[test]
fn optimizer_merges_adjacent_writes() {
    let merged = optimize(
        "write!(f, \"a\", x)?;write!(f, \"b\", y)?;done".to_string(),
        "f",
    );
    assert_eq!(merged, "write!(f, \"ab\", x, y)?;done");
}

#[test]
fn optimizer_idempotent() {
    let samples = vec![
        "write!(f, \"a\", x)?;write!(f, \"b\", y)?;done".to_string(),
        "if self.some.as_bool(){write!(f, \"Hello\")?;}else{write!(f, \"World\")?;}".to_string(),
        "no writes at all".to_string(),
        "prefix write!(f, \"one\")?; middle write!(f, \"two\")?; end".to_string(),
    ];
    for s in samples {
        let once = optimize(s.clone(), "f");
        let twice = optimize(once.clone(), "f");
        assert_eq!(once, twice);
    }
}

#[test]
fn raw_value_with_root_and_sink() {
    let rust = compiler(Some("obj"), "w").compile("Hello {{{name}}}!").unwrap();
    assert_eq!(rust.code, "write!(w, \"Hello {}!\", obj.name.as_display())?;");
    assert_eq!(rust.uses().to_string(), "use rusty_handlebars::AsDisplay");
}

#[test]
fn each_without_root() {
    let rust = compiler(None, "f")
        .compile("{{#each items}}{{this}}{{/each}}")
        .unwrap();
    assert_eq!(
        rust.code,
        "for this_1 in items{write!(f, \"{}\", this_1.as_display_html())?;}"
    );
    assert!(!rust.code.contains("i_1"));
    assert!(!rust.code.contains("empty"));
}

#[test]
fn nested_with_parent_path() {
    let rust = compile("{{#with a}}{{#with b}}{{../c}}{{/with}}{{/with}}");
    assert_eq!(
        rust,
        "{let this_1 = self.a;{let this_2 = this_1.b;write!(f, \"{}\", this_1.c.as_display_html())?;}}"
    );
}

#[test]
fn each_else_wrapper() {
    let rust = compile("{{#each xs}}x{{else}}none{{/each}}");
    assert_eq!(
        rust,
        "{let mut empty = true;for this_1 in self.xs{empty = false;write!(f, \"x\")?;} if empty {write!(f, \"none\")?;}}"
    );
}

#[test]
fn error_unterminated_marker() {
    assert_eq!(compile_err("text {{name"), ErrorKind::UnterminatedMarker);
}

#[test]
fn error_empty_block_content() {
    assert_eq!(compile_err("{{}}"), ErrorKind::EmptyBlockContent);
}

#[test]
fn error_unknown_helper() {
    assert_eq!(compile_err("{{#bogus x}}y{{/bogus}}"), ErrorKind::UnknownHelper);
}

#[test]
fn error_missing_required_argument() {
    assert_eq!(compile_err("{{#if}}x{{/if}}"), ErrorKind::MissingRequiredArgument);
}

#[test]
fn error_arity_mismatch() {
    assert_eq!(compile_err("{{lookup a}}"), ErrorKind::ArityMismatch);
    assert_eq!(compile_err("{{#if a b}}x{{/if}}"), ErrorKind::ArityMismatch);
    assert_eq!(compile_err("{{#unless a b}}x{{/unless}}"), ErrorKind::ArityMismatch);
}

#[test]
fn error_mismatched_block_close() {
    assert_eq!(compile_err("{{/if}}"), ErrorKind::MismatchedBlockClose);
    assert_eq!(
        compile_err("{{#if a}}x{{/each}}"),
        ErrorKind::MismatchedBlockClose
    );
    assert_eq!(
        compile_err("{{#if_some_ref a}}x{{/if_some}}"),
        ErrorKind::MismatchedBlockClose
    );
    assert_eq!(
        compile("{{#unless a}}x{{/unless}}"),
        "if !self.a.as_bool(){write!(f, \"x\")?;}"
    );
}

#[test]
fn error_else_not_allowed_here() {
    assert_eq!(
        compile_err("{{#with a}}{{else}}{{/with}}"),
        ErrorKind::ElseNotAllowedHere
    );
}

#[test]
fn error_unbound_private_variable() {
    assert_eq!(compile_err("{{@index}}"), ErrorKind::UnboundPrivateVariable);
    assert_eq!(
        compile_err("{{#each xs}}{{indexes @index}}{{/each}}"),
        ErrorKind::UnboundPrivateVariable
    );
}

#[test]
fn display_renderings() {
    assert_eq!(0usize.as_display(), "0");
    assert_eq!(1234usize.as_display(), "1234");
    assert_eq!("plain".as_display(), "plain");
    assert_eq!(true.as_display(), "true");
    assert_eq!(
        "<script>\"&\"</script>".as_display_html(),
        "&lt;script&gt;&quot;&amp;&quot;&lt;/script&gt;"
    );
    assert_eq!(255u8.as_display(), "255");
    let absent: Option<String> = None;
    assert_eq!(absent.as_display(), "");
    assert_eq!(Some("x".to_string()).as_display(), "x");
}

#[test]
fn capability_set_is_ordered_and_unique() {
    let rust = compiler(Some("self"), "f")
        .compile("{{a}}{{{b}}}{{c}}{{#if d}}x{{/if}}")
        .unwrap();
    assert_eq!(
        rust.uses().to_string(),
        "use rusty_handlebars::{AsDisplayHtml,AsDisplay,AsBool}"
    );
}

#[test]
fn helper_call_with_literal_arguments() {
    assert_eq!(
        compile("{{format_price \"USD\" 2}}"),
        "write!(f, \"{}\", self.format_price(\"USD\",2).as_display_html())?;"
    );
}

#[test]
fn subexpression_as_value() {
    assert_eq!(
        compile("{{{(lookup prices day)}}}"),
        "write!(f, \"{}\", (self.prices.get(self.day)).as_display())?;"
    );
}

#[test]
fn scanner_splits_marker() {
    let expr = rusty_handlebars::Expression::from("a {{name}} b").unwrap().unwrap();
    assert!(matches!(
        expr.expression_type,
        rusty_handlebars::ExpressionType::HtmlEscaped
    ));
    assert_eq!(expr.prefix, "a ");
    assert_eq!(expr.content, "name");
    assert_eq!(expr.postfix, " b");
    let next = expr.next().unwrap();
    assert!(next.is_none());
}

#[test]
fn tokenizer_reads_chain() {
    let src = "user.name (helper arg) @index";
    let token = rusty_handlebars::Token::first(src).unwrap().unwrap();
    assert_eq!(token.value, "user.name");
    assert!(matches!(token.token_type, rusty_handlebars::TokenType::Variable));
    let token = token.next().unwrap().unwrap();
    assert_eq!(token.value, "helper arg");
    assert!(matches!(
        token.token_type,
        rusty_handlebars::TokenType::SubExpression(_)
    ));
    let token = token.next().unwrap().unwrap();
    assert_eq!(token.value, "index");
    assert!(matches!(
        token.token_type,
        rusty_handlebars::TokenType::PrivateVariable
    ));
    assert!(token.next().unwrap().is_none());
}

#[test]
fn quoted_string_backslash_escaping() {
    // An escaped character inside a quoted literal does not hide the
    // closing quote that follows it.
    let token = rusty_handlebars::Token::first("\"a\\b\" tail").unwrap().unwrap();
    assert_eq!(token.value, "\"a\\b\"");
    assert_eq!(token.tail, "tail");
    // An escaped quote stays inside the literal.
    let token = rusty_handlebars::Token::first("\"a\\\"b\" tail").unwrap().unwrap();
    assert_eq!(token.value, "\"a\\\"b\"");
    assert_eq!(token.tail, "tail");
}

#[test]
fn numeric_token_followed_by_path() {
    // The numeric test runs on the token alone: a digit token stays a
    // literal even when a path follows it in the same marker.
    assert_eq!(
        compile("{{scale 2 factor}}"),
        "write!(f, \"{}\", self.scale(2,self.factor).as_display_html())?;"
    );
}

#[test]
fn optimizer_remerge_boundary() {
    // Outside the unmergeable class the pass need not be idempotent:
    // merged argument text can itself recombine into the call-closing
    // sequence, and a second application then splits and merges
    // differently.
    let s = "write!(f, \"a\"(z)?)?;write!(f, \"b\";write!(f, \"X\", y)?)?;".to_string();
    let once = optimize(s, "f");
    assert_eq!(once, "write!(f, \"ab\"(z)?;write!(f, \"X\", y)?)?;");
    let twice = optimize(once.clone(), "f");
    assert_eq!(twice, "write!(f, \"abX\"(z, y)?)?;");
}
