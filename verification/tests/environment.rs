use secure_config_server::config::{GitConfig, HttpConfig};
use secure_config_server::environment::{
    build_registry, clone_env, environment, global_env, merge_env_text_into, merge_vars_into,
    EnvDefinition, EnvMap, EnvState, Registry, RootConfig,
};
use secure_config_server::error::ServerError;

fn git(workdir: &str) -> GitConfig {
    GitConfig {
        repo_url: "https://example.org/cfg.git".to_string(),
        branch: "main".to_string(),
        workdir: workdir.to_string(),
        subpath: None,
        refresh_interval_secs: 30,
    }
}

fn pairs(env: &EnvMap) -> Vec<(String, String)> {
    env.entries().iter().map(|e| (e.key.clone(), e.value.clone())).collect()
}

fn p(k: &str, v: &str) -> (String, String) {
    (k.to_string(), v.to_string())
}

fn root(git_cfg: Option<GitConfig>, environments: Vec<EnvDefinition>) -> RootConfig {
    RootConfig {
        http: HttpConfig { bind_addr: "127.0.0.1:8080".to_string(), base_path: "/".to_string() },
        env_from_process: false,
        env_file: None,
        git: git_cfg,
        environments,
    }
}

#[test]
fn env_file_lines_are_parsed() {
    let mut env = EnvMap::new();
    merge_env_text_into(
        "# comment\nA=1\n\n  B = two words  \nNOEQUALS\nC=x=y\n   # indented comment\nD=\n=novalue\r\nE=5\r\n",
        &mut env,
    );
    assert_eq!(
        pairs(&env),
        vec![p("A", "1"), p("B", "two words"), p("C", "x=y"), p("D", ""), p("", "novalue"), p("E", "5")]
    );
}

#[test]
fn later_definitions_override_earlier_ones() {
    let mut env = EnvMap::new();
    merge_env_text_into("A=1\nB=2\nA=3\n", &mut env);
    assert_eq!(pairs(&env), vec![p("A", "3"), p("B", "2")]);
    merge_env_text_into("B=4\nC=5", &mut env);
    assert_eq!(pairs(&env), vec![p("A", "3"), p("B", "4"), p("C", "5")]);
}

#[test]
fn empty_text_defines_nothing() {
    let mut env = EnvMap::new();
    merge_env_text_into("", &mut env);
    assert_eq!(env.len(), 0);
    merge_env_text_into("\n\n# only comments\n   \n", &mut env);
    assert_eq!(env.len(), 0);
}

#[test]
fn vars_are_merged_in_order() {
    let mut env = EnvMap::new();
    merge_vars_into(&vec![p("X", "1"), p("Y", "2"), p("X", "3")], &mut env);
    assert_eq!(pairs(&env), vec![p("X", "3"), p("Y", "2")]);
}

#[test]
fn global_env_takes_process_variables_only_when_asked() {
    let process = vec![p("HOME", "/root"), p("A", "proc")];
    let env = global_env(false, &process, Some("A=file\nB=2\n"));
    assert_eq!(pairs(&env), vec![p("A", "file"), p("B", "2")]);
    let env = global_env(true, &process, Some("A=file\nB=2\n"));
    assert_eq!(pairs(&env), vec![p("HOME", "/root"), p("A", "file"), p("B", "2")]);
    let env = global_env(true, &process, None);
    assert_eq!(pairs(&env), process);
    let env = global_env(false, &process, None);
    assert_eq!(env.len(), 0);
}

#[test]
fn clone_env_copies_every_variable() {
    let env = global_env(true, &vec![p("A", "1"), p("B", "2")], None);
    let copy = clone_env(&env);
    assert_eq!(pairs(&copy), pairs(&env));
}

#[test]
fn environment_reads_its_file_over_the_global_variables() {
    let global = global_env(true, &vec![p("A", "1"), p("B", "2")], None);
    let env = environment("prod", &git("/w/prod"), &global, Some("B=prod\nC=3\n"));
    assert_eq!(env.name, "prod");
    assert_eq!(env.git, git("/w/prod"));
    assert_eq!(pairs(&env.env_map), vec![p("A", "1"), p("B", "prod"), p("C", "3")]);
    assert_eq!(pairs(&global), vec![p("A", "1"), p("B", "2")]);
    let env = environment("dev", &git("/w/dev"), &global, None);
    assert_eq!(pairs(&env.env_map), pairs(&global));
}

#[test]
fn registry_finds_an_environment_only_under_its_name() {
    let global = EnvMap::new();
    let mut registry = Registry::new();
    registry.register(environment("prod", &git("/w/prod"), &global, None));
    registry.register(environment("staging", &git("/w/staging"), &global, None));
    assert_eq!(registry.lookup("prod").unwrap().git.workdir, "/w/prod");
    assert_eq!(registry.lookup("staging").unwrap().git.workdir, "/w/staging");
    assert_eq!(registry.lookup("staging").unwrap().name, "staging");
    assert!(registry.lookup("dev").is_none());
    assert!(registry.lookup("").is_none());
    assert!(registry.lookup("Prod").is_none());
    assert_eq!(registry.environments().len(), 2);
}

#[test]
fn registering_a_name_again_replaces_the_environment() {
    let global = EnvMap::new();
    let mut registry = Registry::new();
    registry.register(environment("a", &git("/w/1"), &global, None));
    registry.register(environment("b", &git("/w/2"), &global, None));
    registry.register(environment("a", &git("/w/3"), &global, None));
    let names: Vec<&str> = registry.environments().iter().map(|e: &EnvState| e.name.as_str()).collect();
    assert_eq!(names, vec!["a", "b"]);
    assert_eq!(registry.lookup("a").unwrap().git.workdir, "/w/3");
    assert_eq!(registry.lookup("b").unwrap().git.workdir, "/w/2");
}

#[test]
fn multi_tenant_configuration_registers_each_environment() {
    let global = global_env(true, &vec![p("G", "g")], None);
    let config = root(
        Some(git("/w/single")),
        vec![
            EnvDefinition { name: "prod".to_string(), git: git("/w/prod"), env_file: Some("prod.env".to_string()) },
            EnvDefinition { name: "dev".to_string(), git: git("/w/dev"), env_file: None },
        ],
    );
    let texts = vec![Some("K=prod\n".to_string()), None];
    let registry = build_registry(&config, &global, &texts).unwrap();
    assert_eq!(registry.environments().len(), 2);
    let prod = registry.lookup("prod").unwrap();
    assert_eq!(prod.git.workdir, "/w/prod");
    assert_eq!(pairs(&prod.env_map), vec![p("G", "g"), p("K", "prod")]);
    let dev = registry.lookup("dev").unwrap();
    assert_eq!(pairs(&dev.env_map), vec![p("G", "g")]);
    assert!(registry.lookup("default").is_none());
}

#[test]
fn missing_env_file_texts_count_as_unread() {
    let global = EnvMap::new();
    let config = root(
        None,
        vec![EnvDefinition { name: "only".to_string(), git: git("/w/only"), env_file: Some("x.env".to_string()) }],
    );
    let registry = build_registry(&config, &global, &Vec::new()).unwrap();
    assert_eq!(registry.lookup("only").unwrap().env_map.len(), 0);
}

#[test]
fn single_endpoint_is_served_as_default() {
    let global = global_env(true, &vec![p("G", "g")], None);
    let registry = build_registry(&root(Some(git("/w/single")), Vec::new()), &global, &Vec::new()).unwrap();
    assert_eq!(registry.environments().len(), 1);
    let env = registry.lookup("default").unwrap();
    assert_eq!(env.git, git("/w/single"));
    assert_eq!(pairs(&env.env_map), vec![p("G", "g")]);
}

#[test]
fn configuration_without_any_endpoint_is_an_error() {
    let r = build_registry(&root(None, Vec::new()), &EnvMap::new(), &Vec::new());
    assert_eq!(
        r.err(),
        Some(ServerError::Other("config.yaml must contain either `git` or `environments`".to_string()))
    );
}
