use vstd::prelude::*;

verus! {

/// Which granularity the instrumentation tool works at: whole process
/// executions (`Exec`) or single instructions (`Inst`). `Invalid` stands for
/// "not yet chosen" and must never reach command synthesis.
#[derive(Clone, Copy, PartialEq, Eq, Structural, Debug)]
pub enum DrToolInstrumentationMode {
    Exec,
    Inst,
    Invalid,
}

impl Default for DrToolInstrumentationMode {
    /// A fresh mode is unset.
    fn default() -> (r: Self)
        ensures
            r == DrToolInstrumentationMode::Invalid,
    {
        DrToolInstrumentationMode::Invalid
    }
}

/// The mutable record of every user-settable field. The launcher owns one
/// such record and derives the run command from it.
pub struct Settings {
    /// Directory expected to hold the instrumentation runtime.
    pub dr_dir: String,
    /// Path to the instrumentation module (a shared library).
    pub dr_tool_path: String,
    /// Name of the module or process to instrument.
    pub inst_module: String,
    /// Which synthesis flag is emitted.
    pub inst_mode: DrToolInstrumentationMode,
    /// Optional case-sensitive filter applied by the tool.
    pub substr: String,
    /// Optional output-redirection target; empty means no redirection.
    pub redirect_to_file: String,
    /// The command line to run under instrumentation.
    pub cmd: String,
}

impl Default for Settings {
    /// The record a fresh session starts from when nothing was persisted.
    fn default() -> (r: Self)
        ensures
            is_default_settings(r),
    {
        Settings {
            dr_dir: String::new(),
            dr_tool_path: String::new(),
            inst_module: "cmd.exe".to_owned(),
            inst_mode: DrToolInstrumentationMode::Exec,
            substr: String::new(),
            redirect_to_file: "log.txt".to_owned(),
            cmd: "cmd.exe /c cmd.bat".to_owned(),
        }
    }
}

/// Field-for-field agreement of two records, character for character on the
/// text fields.
pub open spec fn settings_equal(a: Settings, b: Settings) -> bool {
    a.dr_dir@ == b.dr_dir@ && a.dr_tool_path@ == b.dr_tool_path@ && a.inst_module@
        == b.inst_module@ && a.inst_mode == b.inst_mode && a.substr@ == b.substr@
        && a.redirect_to_file@ == b.redirect_to_file@ && a.cmd@ == b.cmd@
}

/// What `Settings::default` hands out.
pub open spec fn is_default_settings(s: Settings) -> bool {
    s.dr_dir@ == Seq::<char>::empty() && s.dr_tool_path@ == Seq::<char>::empty() && s.inst_module@
        == "cmd.exe"@ && s.inst_mode == DrToolInstrumentationMode::Exec && s.substr@
        == Seq::<char>::empty() && s.redirect_to_file@ == "log.txt"@ && s.cmd@
        == "cmd.exe /c cmd.bat"@
}

} // verus!
