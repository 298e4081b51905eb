use std::collections::HashMap;
use std::path::{Component, Path, PathBuf};

use secure_config_server::assembler::parse_profiles;
use secure_config_server::config::{normalize_base_path, GitConfig};
use secure_config_server::environment::{merge_env_text_into, EnvMap};
use secure_config_server::files::file_extension;
use secure_config_server::path::validate_rel_path;
use secure_config_server::reader::{object_path, parse_listing};
use secure_config_server::template::{TemplateEngine, PLACEHOLDER_PATTERN};

fn endpoint(subpath: Option<&str>) -> GitConfig {
    GitConfig {
        repo_url: "https://example.org/cfg.git".to_string(),
        branch: "main".to_string(),
        workdir: "/var/mirror".to_string(),
        subpath: subpath.map(|s| s.to_string()),
        refresh_interval_secs: 30,
    }
}

const TEXTS: [&str; 14] = [
    "",
    "plain",
    "{{A}}",
    "{{ A }}{{B}}",
    "x {{A}} y {{ MISSING }} z {{B}}",
    "{{{A}}}",
    "{{A}",
    "{ {A} }",
    "{{1A}} {{_ok}} {{a_b_9}}",
    "{{A\n}}\t{{\u{a0}B\u{2003}}}",
    "caf\u{e9} {{A}} \u{4e2d}\u{6587} {{B}} \u{1f600}",
    "{{A}}{{A}}{{A}}",
    "nested {{ {{A}} }}",
    "key: \"{{A}}\"\nlist:\n  - {{B}}\n  - {{C}}\n",
];

#[test]
fn substitution_agrees_with_replace_all() {
    let re = regex::Regex::new(PLACEHOLDER_PATTERN).unwrap();
    let engine = TemplateEngine::new().unwrap();
    let mut vars: HashMap<String, String> = HashMap::new();
    vars.insert("A".to_string(), "alpha".to_string());
    vars.insert("B".to_string(), "{{A}} $1 \\ beta".to_string());
    vars.insert("_ok".to_string(), "".to_string());
    let mut env = EnvMap::new();
    for (k, v) in &vars {
        env.insert(k.clone(), v.clone());
    }
    for text in TEXTS {
        let expected = re
            .replace_all(text, |caps: &regex::Captures| {
                vars.get(&caps[1]).cloned().unwrap_or_else(|| caps[0].to_string())
            })
            .into_owned();
        assert_eq!(engine.substitute(text, &env), expected);
    }
}

#[test]
fn substitution_with_no_variables_changes_nothing() {
    let engine = TemplateEngine::new().unwrap();
    let env = EnvMap::new();
    for text in TEXTS {
        assert_eq!(engine.substitute(text, &env), text);
    }
}

fn components_clean(raw: &str) -> Result<String, &'static str> {
    let mut clean = PathBuf::new();
    for comp in Path::new(raw).components() {
        match comp {
            Component::Normal(seg) => clean.push(seg),
            Component::CurDir => {}
            Component::ParentDir => return Err("Parent '..' segments are not allowed"),
            _ => return Err("Absolute or root-relative paths are not allowed"),
        }
    }
    Ok(clean.to_str().unwrap().to_string())
}

#[test]
fn validation_agrees_with_path_components() {
    for raw in [
        "",
        ".",
        "..",
        "/",
        "a",
        "a/b",
        "a/./b",
        "./a/./b/.",
        "a//b///c",
        "a/b/",
        "../etc/passwd",
        "a/../b",
        "a/b/..",
        "/etc/passwd",
        "/..",
        "//x",
        "...",
        "..a/b..",
        ".hidden/.x",
        "a/.../b",
        "dir with space/file.txt",
        "caf\u{e9}/\u{4e2d}.yml",
    ] {
        let got = validate_rel_path(raw);
        match components_clean(raw) {
            Ok(path) => assert_eq!(got, Ok(path)),
            Err(message) => assert_eq!(
                got,
                Err(secure_config_server::error::ServerError::BadRequest(message.to_string()))
            ),
        }
    }
}

#[test]
fn a_validated_path_passes_validation_unchanged() {
    for raw in ["", "a", "a/./b", "./x//y/", "a\\b\\.\\c", "..a/b..", "dir/.hidden"] {
        let clean = validate_rel_path(raw).unwrap();
        assert_eq!(validate_rel_path(&clean), Ok(clean.clone()));
        assert!(!clean.starts_with('/'));
        assert!(!clean.contains('\\'));
        assert!(clean.split('/').all(|segment| segment != ".." && segment != "."));
        assert!(clean.is_empty() || clean.split('/').all(|segment| !segment.is_empty()));
    }
}

#[test]
fn profiles_agree_with_split_and_trim() {
    for list in ["", ",", "a", " a , b ", "a,,b", ",a,", "  ", "dev,prod,dev", "\tx\n,\u{a0}y\u{3000}", "a b,c"] {
        let expected: Vec<String> =
            list.split(',').map(|s| s.trim()).filter(|s| !s.is_empty()).map(|s| s.to_string()).collect();
        assert_eq!(parse_profiles(list), expected);
    }
}

#[test]
fn base_path_agrees_with_trim_and_trim_matches() {
    for base in ["", "/", "//", " ", "api", "/api", "api/", " /api/ ", "/a/b/", "/ /", "\t/x//\n", "a b"] {
        let trimmed = base.trim().trim_matches('/');
        let expected = if trimmed.is_empty() { "/".to_string() } else { format!("/{}", trimmed) };
        assert_eq!(normalize_base_path(base), expected);
    }
}

#[test]
fn env_lines_agree_with_lines_trim_and_split_once() {
    for text in [
        "",
        "A=1",
        "A=1\n",
        "A=1\r\n",
        "A=1\r",
        "A=1\n\nB=2\n",
        "# c\nA = 1\n #d\nB= x = y \nnoeq\n=v\nK=\n",
        "A=1\r\nB=2\r\n\r\n",
        "  \t  \nA=\u{a0}1\u{a0}\n",
        "A=1\nA=2\nB=3\nA=4",
        "\n\n\n",
        "#only",
        "x#=1\ny=#2",
    ] {
        let mut expected: Vec<(String, String)> = Vec::new();
        for line in text.lines() {
            let line = line.trim();
            if line.is_empty() || line.starts_with('#') {
                continue;
            }
            if let Some((k, v)) = line.split_once('=') {
                let (k, v) = (k.trim().to_string(), v.trim().to_string());
                match expected.iter_mut().find(|(key, _)| *key == k) {
                    Some(entry) => entry.1 = v,
                    None => expected.push((k, v)),
                }
            }
        }
        let mut env = EnvMap::new();
        merge_env_text_into(text, &mut env);
        let got: Vec<(String, String)> =
            env.entries().iter().map(|e| (e.key.clone(), e.value.clone())).collect();
        assert_eq!(got, expected);
    }
}

#[test]
fn listing_agrees_with_lines_trim_and_strip_prefix() {
    let printed = [
        "",
        "a.yml\nb/c.yml\n",
        "conf/a.yml\nconf/b/c.yml\nother/x\nconf\nconfig/y\n",
        " conf/a.yml \r\n\r\nconf/\r\nconf/z",
        "team/conf/a\nteam\\conf/b\n",
    ];
    for subpath in [None, Some("conf"), Some("team\\conf"), Some("conf/"), Some("")] {
        for text in printed {
            let normalized = subpath.map(|p| p.replace('\\', "/"));
            let mut expected: Vec<String> = Vec::new();
            for line in text.lines() {
                let line = line.trim();
                if line.is_empty() {
                    continue;
                }
                match &normalized {
                    Some(sub) => {
                        if let Some(stripped) = line.strip_prefix(&(sub.clone() + "/")) {
                            expected.push(stripped.to_string());
                        }
                    }
                    None => expected.push(line.to_string()),
                }
            }
            assert_eq!(parse_listing(&endpoint(subpath), text), expected);
        }
    }
}

#[test]
fn object_path_agrees_with_push_and_replace() {
    for subpath in [None, Some("conf"), Some("conf/"), Some("a\\b"), Some("a/b/c")] {
        for rel in ["application.yml", "dir/file.txt", "x", "a/b/c/d.yaml"] {
            let mut full = PathBuf::new();
            if let Some(sub) = subpath {
                full.push(sub);
            }
            full.push(rel);
            let expected = full.to_str().unwrap().replace('\\', "/");
            assert_eq!(object_path(&endpoint(subpath), rel), expected);
        }
    }
}

#[test]
fn extension_agrees_with_path_extension() {
    for path in [
        "a.txt",
        "a",
        "a.tar.gz",
        "dir.d/file",
        "dir.d/file.yml",
        ".bashrc",
        "dir/.hidden",
        ".hidden.json",
        "a.",
        "a/b.c/d.e.f",
        "x/y.JSON",
        "caf\u{e9}.\u{4e2d}",
    ] {
        let expected = Path::new(path).extension().map(|e| e.to_str().unwrap()).unwrap_or("");
        assert_eq!(file_extension(path), expected);
    }
}
