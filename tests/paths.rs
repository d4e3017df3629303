use wasm_pipeline::path::{companion_glue_path, extension_bounds, file_name_bounds, has_module_extension};

#[test]
fn file_name_of_plain_path() {
    assert_eq!(file_name_bounds(b"target/app.wasm"), Some((7, 15)));
}

#[test]
fn file_name_skips_trailing_separators_and_dots() {
    assert_eq!(file_name_bounds(b"dir/app.wasm/"), Some((4, 12)));
    assert_eq!(file_name_bounds(b"dir/app.wasm/./"), Some((4, 12)));
    assert_eq!(file_name_bounds(b"./app.wasm"), Some((2, 10)));
}

#[test]
fn no_file_name_for_root_empty_or_parent() {
    assert_eq!(file_name_bounds(b""), None);
    assert_eq!(file_name_bounds(b"/"), None);
    assert_eq!(file_name_bounds(b"."), None);
    assert_eq!(file_name_bounds(b"dir/.."), None);
}

#[test]
fn extension_is_after_the_last_dot() {
    assert_eq!(extension_bounds(b"a/x.tar.wasm"), Some((7, 12)));
    assert_eq!(extension_bounds(b"a/.wasm"), None);
    assert_eq!(extension_bounds(b"a/noext"), None);
    assert_eq!(extension_bounds(b"a.b/noext"), None);
}

#[test]
fn module_extension_recognised() {
    assert!(has_module_extension(b"app.wasm"));
    assert!(has_module_extension(b"target/wasm32-unknown-unknown/release/app.wasm"));
    assert!(has_module_extension(b"app.wasm/"));
    assert!(!has_module_extension(b"app.js"));
    assert!(!has_module_extension(b"app.WASM"));
    assert!(!has_module_extension(b"app.wasmx"));
    assert!(!has_module_extension(b".wasm"));
    assert!(!has_module_extension(b"wasm"));
    assert!(!has_module_extension(b"app.wasm/.."));
    assert!(!has_module_extension(b""));
}

#[test]
fn glue_path_swaps_the_extension() {
    assert_eq!(companion_glue_path(b"app.wasm"), Some(b"app.js".to_vec()));
    assert_eq!(companion_glue_path(b"target/release/app.wasm"), Some(b"target/release/app.js".to_vec()));
    assert_eq!(companion_glue_path(b"x.tar.wasm"), Some(b"x.tar.js".to_vec()));
    assert_eq!(companion_glue_path(b"dir/app.wasm/"), Some(b"dir/app.js".to_vec()));
}

#[test]
fn no_glue_path_for_other_files() {
    assert_eq!(companion_glue_path(b"app.js"), None);
    assert_eq!(companion_glue_path(b"app"), None);
}
