use secure_config_server::environment::EnvMap;
use secure_config_server::template::{apply_template, render_segments, Placeholder, TemplateEngine};

fn env_of(pairs: &[(&str, &str)]) -> EnvMap {
    let mut env = EnvMap::new();
    for (k, v) in pairs {
        env.insert(k.to_string(), v.to_string());
    }
    env
}

#[test]
fn known_placeholder_is_replaced() {
    let engine = TemplateEngine::new().unwrap();
    let env = env_of(&[("DB_HOST", "db.internal")]);
    assert_eq!(engine.substitute("host: {{DB_HOST}}", &env), "host: db.internal");
}

#[test]
fn whitespace_inside_braces_is_allowed() {
    let engine = TemplateEngine::new().unwrap();
    let env = env_of(&[("NAME", "x")]);
    assert_eq!(engine.substitute("a {{ NAME }} b {{\tNAME\n}} c", &env), "a x b x c");
}

#[test]
fn unknown_placeholder_is_left_verbatim() {
    let engine = TemplateEngine::new().unwrap();
    let env = env_of(&[("OTHER", "1")]);
    assert_eq!(engine.substitute("{{UNSET_VAR}}", &env), "{{UNSET_VAR}}");
    assert_eq!(engine.substitute("a {{  UNSET_VAR }} b", &env), "a {{  UNSET_VAR }} b");
}

#[test]
fn text_without_placeholder_is_unchanged() {
    let engine = TemplateEngine::new().unwrap();
    let env = env_of(&[("A", "1")]);
    let text = "plain: text\nwith { braces } and {{ 1bad }} and {{}} \u{00e9}\u{4e2d}";
    assert_eq!(engine.substitute(text, &env), text);
    assert_eq!(engine.substitute("", &env), "");
}

#[test]
fn substitution_is_a_single_pass() {
    let engine = TemplateEngine::new().unwrap();
    let env = env_of(&[("A", "{{B}}"), ("B", "deep")]);
    assert_eq!(engine.substitute("x={{A}};y={{B}}", &env), "x={{B}};y=deep");
}

#[test]
fn adjacent_and_edge_placeholders() {
    let engine = TemplateEngine::new().unwrap();
    let env = env_of(&[("A", "1"), ("B", "2")]);
    assert_eq!(engine.substitute("{{A}}{{B}}", &env), "12");
    assert_eq!(engine.substitute("{{A}}-{{MISSING}}-{{B}}", &env), "1-{{MISSING}}-2");
}

#[test]
fn apply_template_is_substitute() {
    let engine = TemplateEngine::new().unwrap();
    let env = env_of(&[("PORT", "8080")]);
    assert_eq!(apply_template(&engine, "port: {{PORT}}", &env), "port: 8080");
}

#[test]
fn render_segments_puts_pieces_together() {
    let env = env_of(&[("K", "v")]);
    let literals = vec!["a".to_string(), "b".to_string(), "c".to_string()];
    let placeholders = vec![
        Placeholder { text: "{{K}}".to_string(), name: Some("K".to_string()) },
        Placeholder { text: "{{Z}}".to_string(), name: Some("Z".to_string()) },
    ];
    assert_eq!(render_segments(&literals, &placeholders, &env), "avb{{Z}}c");
    let nameless = vec![
        Placeholder { text: "<1>".to_string(), name: None },
        Placeholder { text: "<2>".to_string(), name: None },
    ];
    assert_eq!(render_segments(&literals, &nameless, &env), "a<1>b<2>c");
}

#[test]
fn engine_with_another_pattern() {
    let engine = TemplateEngine::with_pattern("\\$\\{([a-z]+)\\}").unwrap();
    let env = env_of(&[("home", "/root")]);
    assert_eq!(engine.substitute("cd ${home}; echo {{home}} ${nope}", &env), "cd /root; echo {{home}} ${nope}");
}

#[test]
fn pattern_that_does_not_compile_is_an_error() {
    let r = TemplateEngine::with_pattern("(unclosed");
    assert!(matches!(r, Err(secure_config_server::error::ServerError::Other(_))));
}
