use drsym_launcher::launch::{cdb_arg_string, cdb_args, cdb_path, module_base, replace_newlines};

#[test]
fn module_extension_is_stripped() {
    assert_eq!(module_base("cmd.exe"), "cmd");
    assert_eq!(module_base("archive.tar.gz"), "archive.tar");
    assert_eq!(module_base("noext"), "noext");
}

#[test]
fn argument_text_wraps_the_symbol_query_in_quotes() {
    assert_eq!(
        cdb_arg_string("cmd.exe", "app.exe --flag"),
        "-c \"x cmd!*\" app.exe --flag"
    );
}

#[test]
fn argument_vector_honours_the_quotes() {
    let args = cdb_args("cmd.exe", "app.exe --flag value");
    assert_eq!(args, vec!["-c", "x cmd!*", "app.exe", "--flag", "value"]);
}

#[test]
fn debugger_path_is_the_windows_kits_install() {
    assert!(cdb_path().ends_with("\\cdb.exe"));
    assert!(cdb_path().starts_with("C:\\Program Files (x86)\\Windows Kits"));
}

#[test]
fn line_breaks_become_command_chains() {
    assert_eq!(replace_newlines("a\nb\nc"), "a&&b&&c");
    assert_eq!(replace_newlines("plain"), "plain");
    assert_eq!(replace_newlines("\n"), "&&");
}
