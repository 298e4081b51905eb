use secure_config_server::environment::EnvMap;
use secure_config_server::export::{export_script, shell_escape};

#[test]
fn backslash_quote_and_dollar_are_escaped() {
    assert_eq!(shell_escape("plain"), "plain");
    assert_eq!(shell_escape(""), "");
    assert_eq!(shell_escape("a\\b"), "a\\\\b");
    assert_eq!(shell_escape("say \"hi\""), "say \\\"hi\\\"");
    assert_eq!(shell_escape("$HOME"), "\\$HOME");
    assert_eq!(shell_escape("\\\"$"), "\\\\\\\"\\$");
    assert_eq!(shell_escape("`cmd` 'x' \u{00e9}"), "`cmd` 'x' \u{00e9}");
}

#[test]
fn escaping_equals_the_three_replacements_in_turn() {
    for value in ["", "a", "\\", "\"", "$", "\\\\\"\"$$", "x\\\"y$z", "$(rm -rf \"/\")\\"] {
        let expected = value.replace('\\', "\\\\").replace('"', "\\\"").replace('$', "\\$");
        assert_eq!(shell_escape(value), expected);
    }
}

#[test]
fn every_variable_is_exported_on_its_own_line() {
    let mut env = EnvMap::new();
    env.insert("A".to_string(), "1".to_string());
    env.insert("PATH".to_string(), "$HOME/bin".to_string());
    env.insert("MSG".to_string(), "say \"hi\"\\".to_string());
    assert_eq!(
        export_script(&env),
        "export A=\"1\"\nexport PATH=\"\\$HOME/bin\"\nexport MSG=\"say \\\"hi\\\"\\\\\"\n"
    );
    assert_eq!(export_script(&EnvMap::new()), "");
}
