use lynx_element_bridge::cssc::{convert, replace_scope_tokens, validate_class, CliArguments, StyleRule};

fn declarations(rule: &StyleRule) -> Vec<(String, String)> {
    rule.style.iter().map(|d| (d.name.clone(), d.value.clone())).collect()
}

fn pairs(items: &[(&str, &str)]) -> Vec<(String, String)> {
    items.iter().map(|(a, b)| (a.to_string(), b.to_string())).collect()
}

#[test]
fn converts_static_subset_with_stylist_scoping_and_stable_order() {
    let rules = convert(
        r#"
                color: red;
                color: blue;
                .label { font-size: 12px; }
                :hover { opacity: 0.5; }
                &.active { width: 10px; }
                :root.large { height: 20px; }
                header, footer { display: flex; }
            "#,
        "counter",
    )
    .unwrap();

    let expected: Vec<(&str, Vec<(String, String)>)> = vec![
        (".counter", pairs(&[("color", "red"), ("color", "blue")])),
        (".counter .label", pairs(&[("font-size", "12px")])),
        (".counter:hover", pairs(&[("opacity", "0.5")])),
        (".counter.active", pairs(&[("width", "10px")])),
        (".counter.large", pairs(&[("height", "20px")])),
        (".counter header, .counter footer", pairs(&[("display", "flex")])),
    ];
    assert_eq!(rules.len(), expected.len());
    for (rule, (selector, style)) in rules.iter().zip(expected) {
        assert_eq!(rule.rule_type, "StyleRule");
        assert_eq!(rule.selector_text.value, selector);
        assert_eq!(declarations(rule), style);
        assert_eq!(rule.variables.len(), 0);
    }
}

#[test]
fn rejects_unsupported_or_empty_stylesheets() {
    for css in [
        "",
        ".empty {}",
        "@media screen { color: red; }",
        ".nested { @media screen { color: red; } }",
        "color: red; .outer { .inner { color: blue; } }",
        "color: ${color};",
    ] {
        assert!(convert(css, "counter").is_err(), "accepted {css:?}");
    }
}

#[test]
fn rejects_invalid_classes() {
    for class in ["", "-", "-1counter", "1counter", "two classes", ".counter", "caf\u{e9}"] {
        assert!(convert("color: red;", class).is_err(), "accepted {class:?}");
    }
}

#[test]
fn does_not_rewrite_scope_tokens_inside_attribute_values() {
    let rules = convert(r#"[data-amp="a&b"], [data-root=":root"] { color: red; }"#, "counter").unwrap();

    assert_eq!(
        rules[0].selector_text.value,
        r#".counter [data-amp="a&b"], .counter [data-root=":root"]"#
    );
}

#[test]
fn scopes_non_ascii_nested_selectors_without_panicking() {
    let rules = convert(".caf\u{e9} { color: red; }", "counter").unwrap();

    assert_eq!(rules[0].selector_text.value, ".counter .caf\u{e9}");
}

#[test]
fn accepts_css_identifier_starts_in_the_supported_token_subset() {
    for class in ["counter", "_counter", "-counter", "--counter"] {
        assert!(convert("color: red;", class).is_ok(), "rejected {class:?}");
    }
}

#[test]
fn rejects_non_exact_arguments() {
    for args in [
        vec![],
        vec!["--input", "in.css"],
        vec!["--unknown", "value"],
        vec!["--input"],
        vec!["--input", "one.css", "--input", "two.css", "--class", "counter", "--output", "rules.json"],
        vec!["in.css", "--class", "counter", "--output", "rules.json"],
    ] {
        let owned: Vec<String> = args.iter().map(|argument| argument.to_string()).collect();
        assert!(CliArguments::parse(&owned).is_err(), "accepted {args:?}");
    }
}

#[test]
fn accepts_each_argument_once_in_any_order() {
    let args: Vec<String> = ["--output", "rules.json", "--input", "in.css", "--class", "counter"]
        .iter()
        .map(|a| a.to_string())
        .collect();
    let parsed = CliArguments::parse(&args).unwrap();
    assert_eq!(parsed.input, "in.css");
    assert_eq!(parsed.class, "counter");
    assert_eq!(parsed.output, "rules.json");
    let duplicate: Vec<String> = ["--class", "a", "--class", "b"].iter().map(|a| a.to_string()).collect();
    assert_eq!(CliArguments::parse(&duplicate).unwrap_err(), "duplicate argument: --class");
}

#[test]
fn scope_tokens_are_replaced_outside_quotes_escapes_and_brackets() {
    assert_eq!(replace_scope_tokens("&.a", ".c"), (".c.a".to_string(), true));
    assert_eq!(replace_scope_tokens(":root > &", ".c"), (".c > .c".to_string(), true));
    assert_eq!(replace_scope_tokens(":rooted", ".c"), (":rooted".to_string(), false));
    assert_eq!(replace_scope_tokens("\\&x", ".c"), ("\\&x".to_string(), false));
    assert_eq!(replace_scope_tokens("'&'", ".c"), ("'&'".to_string(), false));
    assert_eq!(replace_scope_tokens("[a=&]&", ".c"), ("[a=&].c".to_string(), true));
    assert_eq!(validate_class("-").unwrap_err().len() > 0, true);
    assert!(validate_class("a-b_c9").is_ok());
    assert_eq!(validate_class("").unwrap_err(), "class must not be empty");
}

#[test]
fn convert_refuses_a_bad_class_with_the_class_message() {
    assert_eq!(convert("color: red;", "").unwrap_err(), "class must not be empty");
    assert_eq!(
        convert("color: red;", "-").unwrap_err(),
        "class must use ASCII letters, digits, '-' or '_', start like a CSS identifier, and not be '-' alone"
    );
}
