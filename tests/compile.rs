use npm_cache::compile::{
    get_os_specific_filepath, resolve_compile_executable_output_path, validate_output_path, OutputPathAction,
    OutputPathError, OutputPathState,
};

fn run_test(path: &str, target: Option<&str>, expected: &str) {
    assert_eq!(get_os_specific_filepath(path.to_string(), &target.map(|s| s.to_string()), false), expected);
}

#[test]
fn test_os_specific_file_path() {
    run_test("my-exe", Some("linux"), "my-exe");
    run_test("my-exe-0.1.2", Some("linux"), "my-exe-0.1.2");

    run_test("C:\\my-exe", Some("windows"), "C:\\my-exe.exe");
    run_test("C:\\my-exe.exe", Some("windows"), "C:\\my-exe.exe");
    run_test("C:\\my-exe.0.1.2", Some("windows"), "C:\\my-exe.0.1.2.exe");
    run_test("my-exe-0.1.2", Some("linux"), "my-exe-0.1.2");
}

#[test]
fn os_specific_file_path_on_windows_host() {
    let windows_host = |p: &str| get_os_specific_filepath(p.to_string(), &None, true);
    assert_eq!(windows_host("C:\\my-exe"), "C:\\my-exe.exe");
    assert_eq!(windows_host("C:\\my-exe.exe"), "C:\\my-exe.exe");
    assert_eq!(windows_host("C:\\my-exe-0.1.2"), "C:\\my-exe-0.1.2.exe");
    assert_eq!(windows_host("out/.hidden"), "out/.hidden.exe");
    assert_eq!(windows_host("out/dir/"), "out/dir.exe");
    assert_eq!(windows_host(".."), "..");
    assert_eq!(get_os_specific_filepath("my-exe".to_string(), &None, false), "my-exe");
    assert_eq!(
        get_os_specific_filepath("a/b".to_string(), &Some("x86_64-pc-windows-msvc".to_string()), false),
        "a/b.exe"
    );
}

#[test]
fn resolve_compile_executable_output_path_target_linux() {
    let path = resolve_compile_executable_output_path(
        Some("./file".to_string()),
        Some("mod".to_string()),
        &Some("x86_64-unknown-linux-gnu".to_string()),
        false,
    )
    .unwrap();
    assert_eq!(path, "./file");
}

#[test]
fn resolve_compile_executable_output_path_target_windows() {
    let path = resolve_compile_executable_output_path(
        Some("./file".to_string()),
        Some("mod".to_string()),
        &Some("x86_64-pc-windows-msvc".to_string()),
        false,
    )
    .unwrap();
    assert_eq!(path, "./file.exe");
}

#[test]
fn output_directory_takes_inferred_name() {
    assert_eq!(
        resolve_compile_executable_output_path(Some("out/".to_string()), Some("mod".to_string()), &None, false),
        Some("out/mod".to_string())
    );
    assert_eq!(
        resolve_compile_executable_output_path(None, Some("mod".to_string()), &None, true),
        Some("mod.exe".to_string())
    );
    assert_eq!(resolve_compile_executable_output_path(None, None, &None, false), None);
}

fn state(exists: bool, is_dir: bool, is_standalone_binary: bool, parent_exists: bool, parent_is_file: bool) -> OutputPathState {
    OutputPathState { exists, is_dir, is_standalone_binary, parent_exists, parent_is_file }
}

#[test]
fn output_path_checks() {
    assert_eq!(validate_output_path(&state(true, true, false, true, false)), Err(OutputPathError::IsDirectory));
    assert_eq!(
        validate_output_path(&state(true, false, false, true, false)),
        Err(OutputPathError::NotStandaloneBinary)
    );
    assert_eq!(validate_output_path(&state(true, false, true, true, false)), Ok(OutputPathAction::RemoveExisting));
    assert_eq!(validate_output_path(&state(false, false, false, true, true)), Err(OutputPathError::ParentIsFile));
    assert_eq!(validate_output_path(&state(false, false, false, false, false)), Ok(OutputPathAction::CreateParent));
}
