use secure_config_server::environment::EnvMap;
use secure_config_server::error::ServerError;
use secure_config_server::files::{
    content_type, content_type_for, file_extension, file_response, has_zero_byte, serve_file,
    FileBody, FileResponse,
};
use secure_config_server::template::TemplateEngine;

fn env() -> EnvMap {
    let mut env = EnvMap::new();
    env.insert("NAME".to_string(), "world".to_string());
    env
}

#[test]
fn extension_is_what_follows_the_last_dot_of_the_file_name() {
    assert_eq!(file_extension("a.txt"), "txt");
    assert_eq!(file_extension("dir/a.tar.gz"), "gz");
    assert_eq!(file_extension("dir.d/file"), "");
    assert_eq!(file_extension("dir.d/file.yml"), "yml");
    assert_eq!(file_extension("noext"), "");
    assert_eq!(file_extension(".bashrc"), "");
    assert_eq!(file_extension("dir/.hidden"), "");
    assert_eq!(file_extension(".hidden.json"), "json");
    assert_eq!(file_extension("trailing."), "");
    assert_eq!(file_extension(""), "");
    assert_eq!(file_extension("a/b/"), "");
    assert_eq!(file_extension("UPPER.JSON"), "JSON");
}

#[test]
fn content_type_is_guessed_from_the_extension() {
    assert_eq!(content_type("a.json", false), "application/json");
    assert_eq!(content_type("a.json", true), "application/json");
    assert_eq!(content_type("dir/logo.png", true), "image/png");
    assert_eq!(content_type("notes.txt", false), "text/plain");
    assert_eq!(content_type("application.yml", false), "text/x-yaml");
    assert_eq!(content_type("UPPER.JSON", false), "application/json");
}

#[test]
fn content_type_falls_back_by_kind_of_content() {
    assert_eq!(content_type("noext", true), "application/octet-stream");
    assert_eq!(content_type("noext", false), "text/plain; charset=utf-8");
    assert_eq!(content_type("file.unknownext", true), "application/octet-stream");
    assert_eq!(content_type("file.unknownext", false), "text/plain; charset=utf-8");
    assert_eq!(content_type(".bashrc", false), "text/plain; charset=utf-8");
}

#[test]
fn a_guess_is_taken_and_a_missing_one_replaced() {
    assert_eq!(content_type_for(Some("image/png".to_string()), true), "image/png");
    assert_eq!(content_type_for(Some("image/png".to_string()), false), "image/png");
    assert_eq!(content_type_for(None, true), "application/octet-stream");
    assert_eq!(content_type_for(None, false), "text/plain; charset=utf-8");
}

#[test]
fn zero_bytes_are_found() {
    assert!(has_zero_byte(&vec![1, 2, 0, 3]));
    assert!(has_zero_byte(&vec![0]));
    assert!(!has_zero_byte(&vec![1, 2, 3]));
    assert!(!has_zero_byte(&Vec::new()));
}

#[test]
fn content_with_a_zero_byte_is_served_unmodified_as_octet_stream() {
    let engine = TemplateEngine::new().unwrap();
    let bytes = b"hello {{NAME}}\0tail".to_vec();
    assert_eq!(
        file_response(&engine, &env(), "blob", bytes.clone()),
        FileResponse {
            body: FileBody::Binary(bytes),
            content_type: "application/octet-stream".to_string()
        }
    );
}

#[test]
fn content_that_is_not_utf8_is_served_unmodified() {
    let engine = TemplateEngine::new().unwrap();
    let bytes = vec![0x7b, 0x7b, 0x4e, 0x41, 0x4d, 0x45, 0x7d, 0x7d, 0xff];
    assert_eq!(
        file_response(&engine, &env(), "image.png", bytes.clone()),
        FileResponse { body: FileBody::Binary(bytes), content_type: "image/png".to_string() }
    );
}

#[test]
fn text_has_its_variables_substituted() {
    let engine = TemplateEngine::new().unwrap();
    assert_eq!(
        file_response(&engine, &env(), "greeting.txt", b"hello {{NAME}} and {{OTHER}}".to_vec()),
        FileResponse {
            body: FileBody::Text("hello world and {{OTHER}}".to_string()),
            content_type: "text/plain".to_string()
        }
    );
    assert_eq!(
        file_response(&engine, &env(), "Makefile", "caf\u{00e9} {{ NAME }}".as_bytes().to_vec()),
        FileResponse {
            body: FileBody::Text("caf\u{00e9} world".to_string()),
            content_type: "text/plain; charset=utf-8".to_string()
        }
    );
    assert_eq!(
        file_response(&engine, &env(), "empty", Vec::new()),
        FileResponse { body: FileBody::Text(String::new()), content_type: "text/plain; charset=utf-8".to_string() }
    );
}

#[test]
fn a_file_that_does_not_exist_is_not_found() {
    let engine = TemplateEngine::new().unwrap();
    assert_eq!(serve_file(&engine, &env(), "a.txt", None), Err(ServerError::NotFound));
    assert_eq!(
        serve_file(&engine, &env(), "a.txt", Some(b"{{NAME}}".to_vec())),
        Ok(FileResponse { body: FileBody::Text("world".to_string()), content_type: "text/plain".to_string() })
    );
}
