use secure_config_server::error::ServerError;
use secure_config_server::path::validate_rel_path;

#[test]
fn parent_segments_are_rejected() {
    assert_eq!(
        validate_rel_path("../etc/passwd"),
        Err(ServerError::BadRequest("Parent '..' segments are not allowed".to_string()))
    );
    assert!(matches!(validate_rel_path("a/../b"), Err(ServerError::BadRequest(_))));
    assert!(matches!(validate_rel_path("a/b/.."), Err(ServerError::BadRequest(_))));
}

#[test]
fn rooted_paths_are_rejected() {
    assert_eq!(
        validate_rel_path("/etc/passwd"),
        Err(ServerError::BadRequest("Absolute or root-relative paths are not allowed".to_string()))
    );
    assert_eq!(
        validate_rel_path("/../x"),
        Err(ServerError::BadRequest("Absolute or root-relative paths are not allowed".to_string()))
    );
}

#[test]
fn current_directory_segments_are_dropped() {
    assert_eq!(validate_rel_path("a/./b"), Ok("a/b".to_string()));
    assert_eq!(validate_rel_path("./a"), Ok("a".to_string()));
    assert_eq!(validate_rel_path("a//b/"), Ok("a/b".to_string()));
}

#[test]
fn plain_paths_pass() {
    assert_eq!(validate_rel_path("application.yml"), Ok("application.yml".to_string()));
    assert_eq!(validate_rel_path("dir/sub/file.txt"), Ok("dir/sub/file.txt".to_string()));
    assert_eq!(validate_rel_path("..."), Ok("...".to_string()));
    assert_eq!(validate_rel_path("..a/b.."), Ok("..a/b..".to_string()));
    assert_eq!(validate_rel_path(""), Ok("".to_string()));
}

#[test]
fn backslashes_separate_segments_too() {
    assert_eq!(validate_rel_path("a\\b"), Ok("a/b".to_string()));
    assert!(matches!(validate_rel_path("..\\secret"), Err(ServerError::BadRequest(_))));
    assert!(matches!(validate_rel_path("a\\..\\..\\b"), Err(ServerError::BadRequest(_))));
    assert!(matches!(validate_rel_path("\\etc"), Err(ServerError::BadRequest(_))));
}
