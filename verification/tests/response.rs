use secure_config_server::config::{AuthConfig, GitConfig, HttpConfig};
use secure_config_server::environment::{environment, AppState, EnvMap, Registry};
use secure_config_server::error::{GitStage, ServerError};
use secure_config_server::properties::{PropertyMap, PropertyValue};
use secure_config_server::response::{
    authorize_request, build_env_response, deny, env_meta, handle_spring_request, not_found_body,
    property_source_name, reply_to, route_path, spring_not_found, ui_meta, Denial, EnvMeta, Reply,
};
use secure_config_server::template::TemplateEngine;

fn git(workdir: &str, subpath: Option<&str>) -> GitConfig {
    GitConfig {
        repo_url: "https://example.org/cfg.git".to_string(),
        branch: "main".to_string(),
        workdir: workdir.to_string(),
        subpath: subpath.map(|s| s.to_string()),
        refresh_interval_secs: 30,
    }
}

fn state(auth: AuthConfig) -> AppState {
    let global = EnvMap::new();
    let mut envs = Registry::new();
    envs.register(environment("prod", &git("/w/prod", None), &global, None));
    envs.register(environment("staging", &git("/w/staging", Some("conf")), &global, None));
    AppState {
        http: HttpConfig { bind_addr: "127.0.0.1:8080".to_string(), base_path: " /config/ ".to_string() },
        envs,
        auth,
    }
}

fn some_properties() -> PropertyMap {
    let mut map = PropertyMap::new();
    map.insert("k".to_string(), PropertyValue::Int(2));
    map
}

#[test]
fn property_source_is_named_after_the_endpoint_and_the_profiles() {
    assert_eq!(
        property_source_name(&git("/w", None), "dev,prod"),
        "git:https://example.org/cfg.git:dev,prod"
    );
    assert_eq!(
        property_source_name(&git("/w", Some("conf/app")), " dev , prod "),
        "git:https://example.org/cfg.git/conf/app: dev , prod "
    );
}

#[test]
fn envelope_without_any_file_has_no_property_source() {
    let r = build_env_response(
        &git("/w", None),
        "billing",
        "dev",
        None,
        PropertyMap::new(),
        false,
        Ok("abc123".to_string()),
    );
    assert_eq!(r.name, "billing");
    assert_eq!(r.profiles, vec!["dev"]);
    assert_eq!(r.label, None);
    assert_eq!(r.version, "abc123");
    assert_eq!(r.state, "");
    assert!(r.property_sources.is_empty());
}

#[test]
fn envelope_with_files_has_one_property_source() {
    let r = build_env_response(
        &git("/w", Some("conf")),
        "billing",
        "dev, eu,",
        Some("v1"),
        some_properties(),
        true,
        Ok("abc123".to_string()),
    );
    assert_eq!(r.name, "billing");
    assert_eq!(r.profiles, vec!["dev", "eu"]);
    assert_eq!(r.label, Some("v1".to_string()));
    assert_eq!(r.state, "");
    assert_eq!(r.property_sources.len(), 1);
    assert_eq!(r.property_sources[0].name, "git:https://example.org/cfg.git/conf:dev, eu,");
    assert_eq!(r.property_sources[0].source.get(&"k".to_string()), Some(&PropertyValue::Int(2)));
    assert_eq!(r.property_sources[0].source.len(), 1);
}

#[test]
fn a_version_that_does_not_resolve_does_not_block_the_envelope() {
    let failure = ServerError::Git {
        stage: GitStage::RevParse,
        target: "origin/v1".to_string(),
        stderr: "unknown revision".to_string(),
    };
    let r = build_env_response(&git("/w", None), "app", "default", Some("v1"), some_properties(), true, Err(failure));
    assert_eq!(r.version, "");
    assert_eq!(r.property_sources.len(), 1);
}

#[test]
fn not_found_body_has_the_protocol_shape() {
    let body = not_found_body("2024-05-01T10:00:00.000Z".to_string(), "/prod/app/dev");
    assert_eq!(body.timestamp, "2024-05-01T10:00:00.000Z");
    assert_eq!(body.status, 404);
    assert_eq!(body.error, "Not Found");
    assert_eq!(body.path, "/prod/app/dev");
}

#[test]
fn not_found_body_made_now_carries_a_utc_timestamp() {
    let body = spring_not_found("/nowhere");
    assert_eq!(body.status, 404);
    assert_eq!(body.error, "Not Found");
    assert_eq!(body.path, "/nowhere");
    // yyyy-mm-ddThh:mm:ss.mmmZ
    assert_eq!(body.timestamp.len(), 24);
    assert!(body.timestamp.ends_with('Z'));
    assert_eq!(&body.timestamp[10..11], "T");
}

#[test]
fn route_paths_put_a_slash_before_each_segment() {
    let seg = |v: &[&str]| v.iter().map(|s| s.to_string()).collect::<Vec<String>>();
    assert_eq!(route_path(&seg(&["prod", "billing", "dev", "v1"])), "/prod/billing/dev/v1");
    assert_eq!(route_path(&seg(&["prod", "billing", "dev"])), "/prod/billing/dev");
    assert_eq!(route_path(&seg(&["prod", "file", "v1", "a/b.txt"])), "/prod/file/v1/a/b.txt");
    assert_eq!(route_path(&seg(&["prod", "env", "export"])), "/prod/env/export");
    assert_eq!(route_path(&seg(&[])), "");
}

#[test]
fn requests_reach_only_the_environment_that_they_name() {
    let s = state(AuthConfig::from_credentials(None, None));
    assert_eq!(authorize_request(&s, None, "prod").unwrap().git.workdir, "/w/prod");
    assert_eq!(authorize_request(&s, None, "staging").unwrap().git.workdir, "/w/staging");
    assert_eq!(authorize_request(&s, None, "dev").err(), Some(Denial::UnknownEnvironment));
}

#[test]
fn credentials_are_checked_before_the_environment() {
    let s = state(AuthConfig::from_credentials(Some("u".to_string()), Some("p".to_string())));
    assert_eq!(authorize_request(&s, None, "prod").err(), Some(Denial::Unauthorized));
    assert_eq!(authorize_request(&s, None, "dev").err(), Some(Denial::Unauthorized));
    // base64("u:p")
    assert_eq!(authorize_request(&s, Some("Basic dTpw"), "prod").unwrap().name, "prod");
    assert_eq!(authorize_request(&s, Some("Basic dTpw"), "dev").err(), Some(Denial::UnknownEnvironment));
}

#[test]
fn denials_have_their_status() {
    assert_eq!(deny::<()>(Denial::Unauthorized).status_code(), 401);
    assert_eq!(deny::<()>(Denial::UnknownEnvironment).status_code(), 404);
}

#[test]
fn outcomes_are_mapped_to_statuses() {
    assert!(matches!(reply_to(Ok::<u8, ServerError>(7)), Reply::Success(7)));
    assert_eq!(reply_to(Ok::<u8, ServerError>(7)).status_code(), 200);
    assert_eq!(reply_to::<u8>(Err(ServerError::NotFound)).status_code(), 404);
    let bad = reply_to::<u8>(Err(ServerError::BadRequest("Parent '..' segments are not allowed".to_string())));
    assert_eq!(bad.status_code(), 400);
    assert!(matches!(bad, Reply::BadRequest(m) if m == "Parent '..' segments are not allowed"));
    for e in [
        ServerError::Io("disk".to_string()),
        ServerError::Yaml("bad".to_string()),
        ServerError::Json("bad".to_string()),
        ServerError::Utf8,
        ServerError::Git { stage: GitStage::Show, target: "v1".to_string(), stderr: "x".to_string() },
        ServerError::Other("x".to_string()),
    ] {
        assert_eq!(e.http_status(), 500);
        let reply = reply_to::<u8>(Err(e));
        assert!(matches!(reply, Reply::InternalError));
        assert_eq!(reply.status_code(), 500);
    }
    assert_eq!(ServerError::NotFound.http_status(), 404);
    assert_eq!(ServerError::BadRequest(String::new()).http_status(), 400);
}

#[test]
fn environment_metadata_shows_the_endpoint() {
    let s = state(AuthConfig::from_credentials(None, None));
    let staging = s.envs.lookup("staging").unwrap();
    assert_eq!(
        env_meta(staging, Ok("abc".to_string()), Ok("2024-05-01T10:00:00+02:00".to_string())),
        EnvMeta {
            name: "staging".to_string(),
            repo_url: "https://example.org/cfg.git".to_string(),
            branch: "main".to_string(),
            workdir: "/w/staging".to_string(),
            subpath: "conf".to_string(),
            last_commit: "abc".to_string(),
            last_commit_date: "2024-05-01T10:00:00+02:00".to_string(),
        }
    );
    let prod = s.envs.lookup("prod").unwrap();
    let meta = env_meta(prod, Err(ServerError::NotFound), Err(ServerError::Utf8));
    assert_eq!(meta.subpath, "");
    assert_eq!(meta.last_commit, "");
    assert_eq!(meta.last_commit_date, "");
}

#[test]
fn ui_metadata_has_the_normal_base_path_and_the_auth_flag() {
    let s = state(AuthConfig::from_credentials(Some("u".to_string()), Some("p".to_string())));
    let meta = ui_meta(&s, Vec::new());
    assert_eq!(meta.base_path, "/config");
    assert!(meta.auth_enabled);
    assert!(meta.environments.is_empty());
    let open = state(AuthConfig::from_credentials(None, None));
    let envs = vec![env_meta(open.envs.lookup("prod").unwrap(), Ok("c".to_string()), Ok("d".to_string()))];
    let meta = ui_meta(&open, envs.clone());
    assert!(!meta.auth_enabled);
    assert_eq!(meta.environments, envs);
}

#[test]
fn lookup_without_any_candidate_succeeds_with_no_property_source() {
    let engine = TemplateEngine::new().unwrap();
    let s = state(AuthConfig::from_credentials(None, None));
    let env = s.envs.lookup("prod").unwrap();
    for label in [None, Some("v1")] {
        for profiles in ["", "default", "dev,eu"] {
            let files: Vec<Option<Vec<u8>>> = vec![None; 4 + 4 * profiles.split(',').filter(|p| !p.is_empty()).count()];
            let outcome = handle_spring_request(
                &engine,
                env,
                "billing",
                profiles,
                label,
                &files,
                Err(ServerError::NotFound),
            );
            let response = outcome.as_ref().unwrap();
            assert!(response.property_sources.is_empty());
            assert_eq!(response.name, "billing");
            assert_eq!(response.version, "");
            assert_eq!(reply_to(outcome).status_code(), 200);
        }
    }
}

#[test]
fn lookup_merges_the_files_that_exist() {
    let engine = TemplateEngine::new().unwrap();
    let global = {
        let mut env = EnvMap::new();
        env.insert("REGION".to_string(), "eu-west".to_string());
        env
    };
    let env = environment("prod", &git("/w/prod", Some("conf")), &global, None);
    let files: Vec<Option<Vec<u8>>> = vec![
        Some(b"k: 1\nregion: \"{{REGION}}\"\n".to_vec()),
        None,
        None,
        None,
        None,
        None,
        Some(b"k: 2\nlist: [a, b]\n".to_vec()),
        None,
    ];
    let response = handle_spring_request(
        &engine,
        &env,
        "billing",
        "dev",
        Some("v1"),
        &files,
        Ok("4f2a9c".to_string()),
    )
    .unwrap();
    assert_eq!(response.name, "billing");
    assert_eq!(response.profiles, vec!["dev"]);
    assert_eq!(response.label, Some("v1".to_string()));
    assert_eq!(response.version, "4f2a9c");
    assert_eq!(response.state, "");
    assert_eq!(response.property_sources.len(), 1);
    let source = &response.property_sources[0];
    assert_eq!(source.name, "git:https://example.org/cfg.git/conf:dev");
    let got: Vec<(String, PropertyValue)> =
        source.source.entries().iter().map(|e| (e.key.clone(), e.value.clone())).collect();
    assert_eq!(
        got,
        vec![
            ("k".to_string(), PropertyValue::Int(2)),
            ("region".to_string(), PropertyValue::String("eu-west".to_string())),
            ("list[0]".to_string(), PropertyValue::String("a".to_string())),
            ("list[1]".to_string(), PropertyValue::String("b".to_string())),
        ]
    );
}

#[test]
fn lookup_fails_on_a_file_that_cannot_be_merged() {
    let engine = TemplateEngine::new().unwrap();
    let s = state(AuthConfig::from_credentials(None, None));
    let env = s.envs.lookup("prod").unwrap();
    let files = vec![Some(b"a: {".to_vec()), None, None, None];
    let outcome = handle_spring_request(&engine, env, "app", "", None, &files, Ok("c".to_string()));
    assert!(matches!(outcome, Err(ServerError::Yaml(_))));
    assert_eq!(reply_to(outcome).status_code(), 500);
    let files = vec![None, Some(vec![0xff, 0xfe]), None, None];
    let outcome = handle_spring_request(&engine, env, "app", "", None, &files, Ok("c".to_string()));
    assert!(matches!(outcome, Err(ServerError::Utf8)));
}
