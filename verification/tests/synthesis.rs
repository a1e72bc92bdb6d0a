use drsym_launcher::config::{DrToolInstrumentationMode, Settings};
use drsym_launcher::synth::synthesize;

fn base_settings() -> Settings {
    Settings {
        dr_dir: "C:\\DR".to_string(),
        dr_tool_path: "C:\\tools\\DrSymLogger.dll".to_string(),
        inst_module: "cmd.exe".to_string(),
        inst_mode: DrToolInstrumentationMode::Exec,
        substr: String::new(),
        redirect_to_file: "log.txt".to_string(),
        cmd: "cmd.exe /c cmd.bat".to_string(),
    }
}

#[test]
fn scenario_a_exec_with_redirect() {
    let s = base_settings();
    let out = synthesize(&s, "c:\\symbols");
    assert!(out.starts_with("set _NT_SYMBOL_PATH=c:\\symbols &&"));
    assert!(out.contains("--printSymsExec"));
    assert!(out.ends_with("-- cmd.exe /c cmd.bat > log.txt 2>&1"));
    assert_eq!(
        out,
        "set _NT_SYMBOL_PATH=c:\\symbols && C:\\DR\\bin64\\drrun.exe -c \
         C:\\tools\\DrSymLogger.dll --printSymsExec --printSymsExecConsole \
         --printSymsModule cmd.exe -- cmd.exe /c cmd.bat > log.txt 2>&1"
    );
}

#[test]
fn scenario_b_filter_before_separator() {
    let mut s = base_settings();
    s.substr = "malloc".to_string();
    let out = synthesize(&s, "c:\\symbols");
    assert!(out.contains("--printSymsGrep malloc"));
    let grep_pos = out.find("--printSymsGrep malloc").unwrap();
    let sep_pos = out.find(" -- ").unwrap();
    assert!(grep_pos < sep_pos);
}

#[test]
fn synthesis_is_deterministic() {
    let s = base_settings();
    let first = synthesize(&s, "c:\\symbols");
    let second = synthesize(&s, "c:\\symbols");
    assert_eq!(first, second);
}

#[test]
fn exec_mode_has_exec_flag_only() {
    let s = base_settings();
    let out = synthesize(&s, "c:\\symbols");
    assert!(out.contains(" --printSymsExec "));
    assert!(!out.contains("--printSymsInst"));
}

#[test]
fn inst_mode_has_inst_flag_only() {
    let mut s = base_settings();
    s.inst_mode = DrToolInstrumentationMode::Inst;
    let out = synthesize(&s, "c:\\symbols");
    assert!(out.contains(" --printSymsInst "));
    assert!(!out.contains(" --printSymsExec "));
}

#[test]
fn empty_filter_emits_no_grep_flag() {
    let s = base_settings();
    let out = synthesize(&s, "c:\\symbols");
    assert!(!out.contains("--printSymsGrep"));
}

#[test]
fn filter_appears_exactly_once_with_its_text() {
    let mut s = base_settings();
    s.substr = "malloc".to_string();
    let out = synthesize(&s, "c:\\symbols");
    assert_eq!(out.matches("--printSymsGrep").count(), 1);
    assert!(out.contains(" --printSymsGrep malloc"));
}

#[test]
fn empty_redirect_appends_no_suffix() {
    let mut s = base_settings();
    s.redirect_to_file = String::new();
    let out = synthesize(&s, "c:\\symbols");
    assert!(out.ends_with("-- cmd.exe /c cmd.bat"));
    assert!(!out.contains(" > "));
    assert!(!out.contains("2>&1"));
}

#[test]
fn redirect_suffix_merges_stderr() {
    let mut s = base_settings();
    s.redirect_to_file = "out.txt".to_string();
    let out = synthesize(&s, "c:\\symbols");
    assert!(out.ends_with(" > out.txt 2>&1"));
}
