use secure_config_server::config::GitConfig;
use secure_config_server::error::{GitStage, ServerError};
use secure_config_server::git::{GitCommand, GitOutput};
use secure_config_server::mirror::{begin_sync, continue_sync, SyncStage, SyncStep};

fn git() -> GitConfig {
    GitConfig {
        repo_url: "https://example.org/cfg.git".to_string(),
        branch: "release".to_string(),
        workdir: "/var/mirror".to_string(),
        subpath: Some("conf".to_string()),
        refresh_interval_secs: 30,
    }
}

fn ok() -> GitOutput {
    GitOutput { success: true, stdout: Vec::new(), stderr: String::new() }
}

fn failed(stderr: &str) -> GitOutput {
    GitOutput { success: false, stdout: Vec::new(), stderr: stderr.to_string() }
}

fn command(args: &[&str]) -> GitCommand {
    GitCommand { args: args.iter().map(|a| a.to_string()).collect() }
}

#[test]
fn without_a_mirror_the_repository_is_cloned() {
    assert_eq!(
        begin_sync(&git(), false),
        SyncStep::Run {
            stage: SyncStage::Clone,
            command: command(&[
                "clone",
                "--branch",
                "release",
                "--single-branch",
                "https://example.org/cfg.git",
                "/var/mirror"
            ]),
        }
    );
    assert_eq!(continue_sync(&git(), SyncStage::Clone, &ok()), Ok(SyncStep::Done));
}

#[test]
fn with_a_mirror_everything_is_fetched_and_the_tree_reset() {
    assert_eq!(
        begin_sync(&git(), true),
        SyncStep::Run {
            stage: SyncStage::Fetch,
            command: command(&["-C", "/var/mirror", "fetch", "--all", "--prune"]),
        }
    );
    assert_eq!(
        continue_sync(&git(), SyncStage::Fetch, &ok()),
        Ok(SyncStep::Run {
            stage: SyncStage::Reset,
            command: command(&["-C", "/var/mirror", "reset", "--hard", "origin/release"]),
        })
    );
    assert_eq!(continue_sync(&git(), SyncStage::Reset, &ok()), Ok(SyncStep::Done));
}

#[test]
fn a_failed_clone_names_its_stage() {
    let e = continue_sync(&git(), SyncStage::Clone, &failed("  fatal: repository not found\n")).unwrap_err();
    assert_eq!(
        e,
        ServerError::Git {
            stage: GitStage::Clone,
            target: String::new(),
            stderr: "fatal: repository not found".to_string(),
        }
    );
    assert_eq!(e.message(), "Git error: git clone failed: fatal: repository not found");
}

#[test]
fn a_failed_fetch_names_its_stage() {
    let e = continue_sync(&git(), SyncStage::Fetch, &failed("could not resolve host\n")).unwrap_err();
    assert_eq!(
        e,
        ServerError::Git {
            stage: GitStage::Fetch,
            target: String::new(),
            stderr: "could not resolve host".to_string(),
        }
    );
    assert_eq!(e.message(), "Git error: git fetch failed: could not resolve host");
}

#[test]
fn a_failed_reset_names_its_stage_and_target() {
    let e = continue_sync(&git(), SyncStage::Reset, &failed("\tunknown revision\t")).unwrap_err();
    assert_eq!(
        e,
        ServerError::Git {
            stage: GitStage::Reset,
            target: "origin/release".to_string(),
            stderr: "unknown revision".to_string(),
        }
    );
    assert_eq!(e.message(), "Git error: git reset --hard origin/release failed: unknown revision");
}
