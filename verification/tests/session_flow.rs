use drsym_launcher::checks::{check_dr_dir, check_dr_tool_path, dr_dir_probe_paths, DirProbe};
use drsym_launcher::config::{DrToolInstrumentationMode, Settings};
use drsym_launcher::session::MyApp;

fn probe(dir: bool, bin64: bool, launcher: bool) -> DirProbe {
    DirProbe { dir_exists: dir, bin64_exists: bin64, launcher_exists: launcher }
}

#[test]
fn dir_validity_needs_all_three_places() {
    assert!(!check_dr_dir(&probe(false, false, false)));
    assert!(!check_dr_dir(&probe(true, false, false)));
    assert!(!check_dr_dir(&probe(true, true, false)));
    assert!(check_dr_dir(&probe(true, true, true)));
}

#[test]
fn probe_paths_point_into_bin64() {
    let (bin, launcher) = dr_dir_probe_paths("C:\\DR");
    assert_eq!(bin, "C:\\DR\\bin64");
    assert_eq!(launcher, "C:\\DR\\bin64\\drrun.exe");
}

#[test]
fn tool_path_needs_existence_and_exact_name() {
    assert!(check_dr_tool_path(true, "C:\\tools\\DrSymLogger.dll"));
    assert!(check_dr_tool_path(true, "DrSymLogger.dll"));
    assert!(!check_dr_tool_path(false, "C:\\tools\\DrSymLogger.dll"));
    assert!(!check_dr_tool_path(true, "C:\\tools\\Other.dll"));
    assert!(!check_dr_tool_path(true, "C:\\tools\\DrSymLogger.dll\\"));
}

#[test]
fn tool_path_accepts_forward_slashes() {
    assert!(check_dr_tool_path(true, "C:/tools/DrSymLogger.dll"));
    assert!(!check_dr_tool_path(true, "C:/tools/"));
}

#[test]
fn defaults_match_a_fresh_record() {
    let s = Settings::default();
    assert_eq!(s.dr_dir, "");
    assert_eq!(s.dr_tool_path, "");
    assert_eq!(s.inst_module, "cmd.exe");
    assert!(matches!(s.inst_mode, DrToolInstrumentationMode::Exec));
    assert_eq!(s.substr, "");
    assert_eq!(s.redirect_to_file, "log.txt");
    assert_eq!(s.cmd, "cmd.exe /c cmd.bat");
    assert!(matches!(
        DrToolInstrumentationMode::default(),
        DrToolInstrumentationMode::Invalid
    ));
}

#[test]
fn rechecking_symbol_path_keeps_old_value_on_empty_env() {
    let mut s = MyApp::new(Settings::default(), "c:\\symbols");
    assert_eq!(s.symbol_path, "c:\\symbols");
    s.check_symbol_path("");
    assert_eq!(s.symbol_path, "c:\\symbols");
    s.check_symbol_path("srv");
    assert_eq!(s.symbol_path, "c:\\symbols");
    s.check_symbol_path("d:\\other");
    assert_eq!(s.symbol_path, "d:\\other");
}

#[test]
fn symbol_path_takes_first_unreserved_entry() {
    let s = MyApp::new(
        Settings::default(),
        "srv*c:\\symbols*https://msdl.microsoft.com/download/symbols",
    );
    assert_eq!(s.symbol_path, "c:\\symbols");
}

#[test]
fn symbol_path_warns_but_takes_first_of_many() {
    let s = MyApp::new(Settings::default(), "c:\\one*c:\\two");
    assert_eq!(s.symbol_path, "c:\\one");
    assert!(s.log_text.contains("more than one path"));
}

#[test]
fn symbol_path_empty_when_only_reserved_entries() {
    let s = MyApp::new(Settings::default(), "srv*https://msdl.microsoft.com");
    assert_eq!(s.symbol_path, "");
    assert!(s.log_text.contains("no valid paths"));
}

#[test]
fn symbol_path_empty_env_is_reported() {
    let s = MyApp::new(Settings::default(), "");
    assert_eq!(s.symbol_path, "");
    assert_eq!(
        s.log_text,
        "Symbol path is empty, set it to something like \
         srv*c:\\symbols*https://msdl.microsoft.com/download/symbols\n"
    );
}

fn fresh_session() -> MyApp {
    let settings = Settings {
        dr_dir: "C:\\DR".to_string(),
        dr_tool_path: "C:\\tools\\DrSymLogger.dll".to_string(),
        inst_module: "cmd.exe".to_string(),
        inst_mode: DrToolInstrumentationMode::Exec,
        substr: String::new(),
        redirect_to_file: "log.txt".to_string(),
        cmd: "cmd.exe /c cmd.bat".to_string(),
    };
    MyApp::new(settings, "c:\\symbols")
}

#[test]
fn first_pass_diffs_everything_and_builds_command() {
    let mut m = fresh_session();
    let changed = m.validate_fields_and_update_cmd(Some(probe(true, true, true)), Some(true));
    assert!(changed);
    assert!(m.is_dr_dir_ok);
    assert!(m.is_dr_tool_path_ok);
    assert!(!m.is_quote_in_cmd);
    assert!(m.cmd.starts_with("set _NT_SYMBOL_PATH=c:\\symbols &&"));
    assert!(m.cmd.ends_with("-- cmd.exe /c cmd.bat > log.txt 2>&1"));
    assert!(m.is_runnable());
}

#[test]
fn second_pass_without_changes_does_nothing() {
    let mut m = fresh_session();
    let _ = m.validate_fields_and_update_cmd(Some(probe(true, true, true)), Some(true));
    let before = m.cmd.clone();
    assert!(!m.dir_check_pending());
    assert!(!m.tool_check_pending());
    let log_before = m.log_text.clone();
    let changed = m.validate_fields_and_update_cmd(None, None);
    assert!(!changed);
    assert_eq!(m.cmd, before);
    assert_eq!(m.log_text, log_before);
}

#[test]
fn invalid_directory_still_counts_as_change_but_blocks_running() {
    let mut m = fresh_session();
    let _ = m.validate_fields_and_update_cmd(Some(probe(true, true, true)), Some(true));
    m.settings.dr_dir = "C:\\nowhere".to_string();
    assert!(m.dir_check_pending());
    let changed = m.validate_fields_and_update_cmd(Some(probe(false, false, false)), None);
    assert!(changed);
    assert!(!m.is_dr_dir_ok);
    assert!(!m.is_runnable());
    assert!(m.cmd.contains("C:\\nowhere"));
    assert!(m.log_text.contains("Invalid DR dir"));
}

#[test]
fn quote_in_command_is_flagged_and_blocks_running() {
    let mut m = fresh_session();
    let _ = m.validate_fields_and_update_cmd(Some(probe(true, true, true)), Some(true));
    m.settings.cmd = "run \"quoted\"".to_string();
    let changed = m.validate_fields_and_update_cmd(None, None);
    assert!(changed);
    assert!(m.is_quote_in_cmd);
    assert!(!m.is_runnable());
    assert!(m.log_text.contains("quote in command line"));
}

#[test]
fn filter_change_is_detected_and_applied() {
    let mut m = fresh_session();
    let _ = m.validate_fields_and_update_cmd(Some(probe(true, true, true)), Some(true));
    m.settings.substr = "malloc".to_string();
    let changed = m.validate_fields_and_update_cmd(None, None);
    assert!(changed);
    assert!(m.cmd.contains("--printSymsGrep malloc"));
    assert_eq!(m.settings_cached.substr, "malloc");
}

#[test]
fn mode_change_switches_the_flag() {
    let mut m = fresh_session();
    let _ = m.validate_fields_and_update_cmd(Some(probe(true, true, true)), Some(true));
    m.settings.inst_mode = DrToolInstrumentationMode::Inst;
    let changed = m.validate_fields_and_update_cmd(None, None);
    assert!(changed);
    assert!(m.cmd.contains(" --printSymsInst "));
    assert!(!m.cmd.contains(" --printSymsExec "));
}
