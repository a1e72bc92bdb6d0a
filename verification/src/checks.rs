use crate::text::{file_name, file_name_of, str_eq};
use vstd::prelude::*;
use vstd::string::*;

verus! {

/// What the filesystem reported about the three places the instrumentation
/// runtime must occupy: the chosen directory itself, its `bin64`
/// subdirectory, and the launcher executable inside that. The caller probes
/// the disk; deciding on the answers is done here.
#[derive(Clone, Copy, PartialEq, Eq, Structural, Debug)]
pub struct DirProbe {
    pub dir_exists: bool,
    pub bin64_exists: bool,
    pub launcher_exists: bool,
}

impl DirProbe {
    /// The directory is usable only when all three places exist.
    pub open spec fn valid(self) -> bool {
        self.dir_exists && self.bin64_exists && self.launcher_exists
    }
}

/// The two paths below the runtime directory that a probe must test: the
/// `bin64` subdirectory and the launcher executable inside it.
pub fn dr_dir_probe_paths(dr_dir: &str) -> (r: (String, String))
    ensures
        r.0@ == dr_dir@ + "\\bin64"@,
        r.1@ == dr_dir@ + "\\bin64\\drrun.exe"@,
{
    let mut bin = dr_dir.to_owned();
    bin.append("\\bin64");
    let mut launcher = dr_dir.to_owned();
    launcher.append("\\bin64\\drrun.exe");
    (bin, launcher)
}

/// Decides directory validity from the probe: any missing segment fails
/// closed.
pub fn check_dr_dir(probe: &DirProbe) -> (ok: bool)
    ensures
        ok == probe.valid(),
{
    if !probe.dir_exists {
        return false;
    }
    if !probe.bin64_exists {
        return false;
    }
    if !probe.launcher_exists {
        return false;
    }
    true
}

/// The file name the tool binary must carry.
pub open spec fn expected_tool_name() -> Seq<char> {
    "DrSymLogger.dll"@
}

/// Decides tool-path validity: the path must exist on disk (the caller's
/// probe answers that) and its file name must be exactly the expected
/// binary's; any mismatch fails closed.
pub fn check_dr_tool_path(path_exists: bool, dr_tool_path: &str) -> (ok: bool)
    ensures
        ok == (path_exists && file_name_of(dr_tool_path@) == expected_tool_name()),
{
    if !path_exists {
        return false;
    }
    let name = file_name(dr_tool_path);
    str_eq(name.as_str(), "DrSymLogger.dll")
}

/// Directory validity is false whenever the directory, the runtime
/// subdirectory or the launcher is missing, and true only when all three
/// are there.
pub proof fn lemma_dir_validity_cases(probe: DirProbe)
    ensures
        !probe.dir_exists ==> !probe.valid(),
        !probe.bin64_exists ==> !probe.valid(),
        !probe.launcher_exists ==> !probe.valid(),
        probe.dir_exists && probe.bin64_exists && probe.launcher_exists ==> probe.valid(),
{
}

} // verus!
