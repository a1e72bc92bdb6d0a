use crate::checks::{check_dr_dir, check_dr_tool_path, expected_tool_name, DirProbe};
use crate::config::{is_default_settings, settings_equal, DrToolInstrumentationMode, Settings};
use crate::synth::{
    inputs_char_free, lemma_filter_flag, lemma_mode_flag_selects, spec_synthesize, synthesize,
};
use crate::text::{
    contains_seq, file_name_of, has_flag, lemma_prefix_refl, lemma_prefix_trans, occurs_at,
    split_char, split_on_char, str_contains_char, str_starts_with,
};
use vstd::prelude::*;
use vstd::string::*;

verus! {

/// A symbol-search entry the tool cannot use directly: a symbol-server
/// qualifier or a network scheme.
pub open spec fn reserved_prefix(e: Seq<char>) -> bool {
    "srv"@.is_prefix_of(e) || "http"@.is_prefix_of(e)
}

/// The entries that survive the reserved-prefix filter, in order.
pub open spec fn kept_entries(entries: Seq<Seq<char>>) -> Seq<Seq<char>> {
    entries.filter(|e: Seq<char>| !reserved_prefix(e))
}

/// The usable entries of a symbol-path environment value: its parts between
/// `*` separators, minus the reserved ones.
pub open spec fn kept_symbol_entries(env: Seq<char>) -> Seq<Seq<char>> {
    kept_entries(split_char(env, '*'))
}

/// The path the synthesizer gets: the first usable entry, or nothing.
pub open spec fn symbol_path_of(env: Seq<char>) -> Seq<char> {
    if env.len() > 0 && kept_symbol_entries(env).len() >= 1 {
        kept_symbol_entries(env)[0]
    } else {
        Seq::empty()
    }
}

/// The lines that resolving the symbol path appends to the log: the value
/// found (or a hint when it is empty), then the choice made or a warning,
/// so extra or unusable entries are reported, never silently dropped.
pub open spec fn symbol_report_of(env: Seq<char>) -> Seq<char> {
    if env.len() == 0 {
        "Symbol path is empty, set it to something like "@
            + "srv*c:\\symbols*https://msdl.microsoft.com/download/symbols"@ + "\n"@
    } else {
        let head = "_NT_SYMBOL_PATH is ok: "@ + env + "\n"@;
        let kept = kept_symbol_entries(env);
        if kept.len() > 1 {
            head + "Warning: more than one path in _NT_SYMBOL_PATH, leaving only first one: "@
                + kept[0] + "\n"@
        } else if kept.len() == 1 {
            head + "Symbol path for DR: "@ + kept[0] + "\n"@
        } else {
            head + "Warning: no valid paths in _NT_SYMBOL_PATH found"@ + "\n"@
        }
    }
}

/// Appends one `head: value` line to the session log.
fn log_line(log: &mut String, head: &str, value: &str)
    ensures
        final(log)@ == old(log)@ + head@ + value@ + "\n"@,
        old(log)@.is_prefix_of(final(log)@),
{
    log.append(head);
    log.append(value);
    log.append("\n");
    proof {
        assert(old(log)@ =~= log@.subrange(0, old(log)@.len() as int));
    }
}

/// Appends a validation pass's collected messages to the session log.
fn append_notes(log: &mut String, notes: &str)
    ensures
        final(log)@ == old(log)@ + notes@,
        old(log)@.is_prefix_of(final(log)@),
{
    log.append(notes);
    proof {
        assert(old(log)@ =~= log@.subrange(0, old(log)@.len() as int));
    }
}

/// The launcher session's state: the live record, the snapshot it is diffed
/// against, the per-field validity flags, the resolved symbol path, the
/// derived command string and the append-only log.
pub struct MyApp {
    pub settings: Settings,
    pub settings_cached: Settings,
    pub is_dr_dir_ok: bool,
    pub is_dr_tool_path_ok: bool,
    pub is_quote_in_cmd: bool,
    pub log_text: String,
    pub symbol_path: String,
    pub cmd: String,
}

impl MyApp {
    /// The runtime directory field differs from its snapshot.
    pub open spec fn dir_changed(self) -> bool {
        self.settings.dr_dir@ != self.settings_cached.dr_dir@
    }

    /// The tool path field differs from its snapshot.
    pub open spec fn tool_changed(self) -> bool {
        self.settings.dr_tool_path@ != self.settings_cached.dr_tool_path@
    }

    /// The instrumented-module field differs from its snapshot.
    pub open spec fn module_changed(self) -> bool {
        self.settings.inst_module@ != self.settings_cached.inst_module@
    }

    /// The mode field differs from its snapshot.
    pub open spec fn mode_changed(self) -> bool {
        self.settings.inst_mode != self.settings_cached.inst_mode
    }

    /// The redirection field differs from its snapshot.
    pub open spec fn redirect_changed(self) -> bool {
        self.settings.redirect_to_file@ != self.settings_cached.redirect_to_file@
    }

    /// The filter field differs from its snapshot.
    pub open spec fn substr_changed(self) -> bool {
        self.settings.substr@ != self.settings_cached.substr@
    }

    /// The target-command field differs from its snapshot.
    pub open spec fn cmd_changed(self) -> bool {
        self.settings.cmd@ != self.settings_cached.cmd@
    }

    /// The directory flag after a validation pass with the given probe.
    pub open spec fn spec_dir_ok_after(self, dir_probe: Option<DirProbe>) -> bool {
        if self.dir_changed() {
            dir_probe is Some && dir_probe.unwrap().valid()
        } else {
            self.is_dr_dir_ok
        }
    }

    /// The tool-path flag after a validation pass with the given probe.
    pub open spec fn spec_tool_ok_after(self, tool_path_exists: Option<bool>) -> bool {
        if self.tool_changed() {
            tool_path_exists is Some && tool_path_exists.unwrap() && file_name_of(
                self.settings.dr_tool_path@,
            ) == expected_tool_name()
        } else {
            self.is_dr_tool_path_ok
        }
    }

    /// The quote flag after a validation pass: recomputed only when the
    /// command field changed.
    pub open spec fn spec_quote_after(self) -> bool {
        if self.cmd_changed() {
            self.settings.cmd@.contains('"')
        } else {
            self.is_quote_in_cmd
        }
    }

    /// Whether any field differs from the snapshot: one that does makes the
    /// pass re-synthesize the command and the caller persist the record.
    pub open spec fn any_changed(self) -> bool {
        self.dir_changed() || self.tool_changed() || self.module_changed() || self.mode_changed()
            || self.redirect_changed() || self.substr_changed() || self.cmd_changed()
    }

    /// The record may be launched only with a valid runtime directory, a
    /// valid tool path, and a non-empty target command free of double
    /// quotes.
    pub open spec fn runnable(self) -> bool {
        self.is_dr_dir_ok && self.is_dr_tool_path_ok && self.settings.cmd@.len() > 0
            && !self.settings.cmd@.contains('"')
    }

    /// Whether the next validation pass will re-check the runtime
    /// directory, so the caller knows to probe the disk for it.
    pub fn dir_check_pending(&self) -> (r: bool)
        ensures
            r == self.dir_changed(),
    {
        !(self.settings.dr_dir == self.settings_cached.dr_dir)
    }

    /// Whether the next validation pass will re-check the tool path, so the
    /// caller knows to probe the disk for it.
    pub fn tool_check_pending(&self) -> (r: bool)
        ensures
            r == self.tool_changed(),
    {
        !(self.settings.dr_tool_path == self.settings_cached.dr_tool_path)
    }

    /// Whether the record may be launched now.
    pub fn is_runnable(&self) -> (r: bool)
        ensures
            r == self.runnable(),
    {
        self.is_dr_dir_ok && self.is_dr_tool_path_ok && !self.settings.cmd.as_str().is_empty()
            && !str_contains_char(self.settings.cmd.as_str(), '"')
    }

    /// A fresh session around a loaded (or default) record: flags start
    /// pessimistic, the snapshot starts at the defaults so the first pass
    /// diffs everything, and the symbol path is resolved once from the
    /// environment value.
    pub fn new(settings: Settings, symbol_path_env: &str) -> (s: Self)
        ensures
            s.settings == settings,
            is_default_settings(s.settings_cached),
            !s.is_dr_dir_ok,
            !s.is_dr_tool_path_ok,
            !s.is_quote_in_cmd,
            s.cmd@ == Seq::<char>::empty(),
            s.symbol_path@ == symbol_path_of(symbol_path_env@),
            s.log_text@ == symbol_report_of(symbol_path_env@),
    {
        let mut s = MyApp {
            settings,
            settings_cached: Settings::default(),
            is_dr_dir_ok: false,
            is_dr_tool_path_ok: false,
            is_quote_in_cmd: false,
            log_text: String::new(),
            symbol_path: String::new(),
            cmd: String::new(),
        };
        s.check_symbol_path(symbol_path_env);
        proof {
            assert(s.log_text@ =~= symbol_report_of(symbol_path_env@));
        }
        s
    }

    /// Resolves the symbol path from the environment value: the value is
    /// split at `*`, entries opening with a server qualifier or a network
    /// scheme are set aside, and the first remaining entry wins; extra
    /// remaining entries are reported in the log, not silently dropped. An
    /// empty value, or one with no usable entry, leaves the path as it was.
    pub fn check_symbol_path(&mut self, env: &str)
        ensures
            final(self).settings == old(self).settings,
            final(self).settings_cached == old(self).settings_cached,
            final(self).is_dr_dir_ok == old(self).is_dr_dir_ok,
            final(self).is_dr_tool_path_ok == old(self).is_dr_tool_path_ok,
            final(self).is_quote_in_cmd == old(self).is_quote_in_cmd,
            final(self).cmd == old(self).cmd,
            old(self).log_text@.is_prefix_of(final(self).log_text@),
            final(self).log_text@ == old(self).log_text@ + symbol_report_of(env@),
            env@.len() == 0 || kept_symbol_entries(env@).len() == 0 ==> final(self).symbol_path
                == old(self).symbol_path,
            env@.len() > 0 && kept_symbol_entries(env@).len() >= 1 ==> final(self).symbol_path@
                == kept_symbol_entries(env@)[0],
    {
        if env.unicode_len() == 0 {
            log_line(
                &mut self.log_text,
                "Symbol path is empty, set it to something like ",
                "srv*c:\\symbols*https://msdl.microsoft.com/download/symbols",
            );
            proof {
                assert(self.log_text@ =~= old(self).log_text@ + symbol_report_of(env@));
            }
        } else {
            log_line(&mut self.log_text, "_NT_SYMBOL_PATH is ok: ", env);
            let ghost log1 = self.log_text@;
            let parts = split_on_char(env, '*');
            let ghost all = parts@.map_values(|p: String| p@);
            let mut kept_v: Vec<String> = Vec::new();
            let mut i: usize = 0;
            proof {
                reveal(Seq::filter);
                assert(all.subrange(0, 0) =~= Seq::<Seq<char>>::empty());
                assert(kept_v@.map_values(|p: String| p@) =~= kept_entries(all.subrange(0, 0)));
            }
            while i < parts.len()
                invariant
                    i <= parts.len(),
                    all == parts@.map_values(|p: String| p@),
                    kept_v@.map_values(|p: String| p@) == kept_entries(
                        all.subrange(0, i as int),
                    ),
                decreases parts.len() - i,
            {
                let keep = !(str_starts_with(parts[i].as_str(), "srv") || str_starts_with(
                    parts[i].as_str(),
                    "http",
                ));
                proof {
                    reveal(Seq::filter);
                    assert(all.subrange(0, i + 1).drop_last() =~= all.subrange(0, i as int));
                    assert(all.subrange(0, i + 1).last() == all[i as int]);
                    assert(all[i as int] == parts@[i as int]@);
                }
                if keep {
                    let ghost kept_before = kept_v@;
                    kept_v.push(parts[i].clone());
                    proof {
                        assert(kept_v@.map_values(|p: String| p@) =~= kept_before.map_values(
                            |p: String| p@,
                        ).push(parts@[i as int]@));
                    }
                }
                i += 1;
            }
            proof {
                assert(all.subrange(0, parts@.len() as int) =~= all);
            }
            if kept_v.len() > 1 {
                log_line(
                    &mut self.log_text,
                    "Warning: more than one path in _NT_SYMBOL_PATH, leaving only first one: ",
                    kept_v[0].as_str(),
                );
                self.symbol_path = kept_v[0].clone();
                proof {
                    lemma_prefix_trans(old(self).log_text@, log1, self.log_text@);
                    assert(kept_v@.map_values(|p: String| p@).len() == kept_symbol_entries(
                        env@,
                    ).len());
                    assert(kept_v@.map_values(|p: String| p@)[0] == kept_symbol_entries(env@)[0]);
                    assert(self.log_text@ =~= old(self).log_text@ + symbol_report_of(env@));
                }
            } else if kept_v.len() == 1 {
                self.symbol_path = kept_v[0].clone();
                log_line(&mut self.log_text, "Symbol path for DR: ", self.symbol_path.as_str());
                proof {
                    lemma_prefix_trans(old(self).log_text@, log1, self.log_text@);
                    assert(kept_v@.map_values(|p: String| p@).len() == kept_symbol_entries(
                        env@,
                    ).len());
                    assert(kept_v@.map_values(|p: String| p@)[0] == kept_symbol_entries(env@)[0]);
                    assert(self.log_text@ =~= old(self).log_text@ + symbol_report_of(env@));
                }
            } else {
                log_line(&mut self.log_text, "Warning: no valid paths in _NT_SYMBOL_PATH found", "");
                proof {
                    reveal_strlit("");
                    lemma_prefix_trans(old(self).log_text@, log1, self.log_text@);
                    assert(kept_v@.map_values(|p: String| p@).len() == kept_symbol_entries(
                        env@,
                    ).len());
                    assert(self.log_text@ =~= old(self).log_text@ + symbol_report_of(env@));
                }
            }
        }
    }

    /// One validation pass: diffs every field against the snapshot,
    /// re-checks the filesystem-dependent ones only when they themselves
    /// changed (through the probes the caller took for exactly those
    /// fields), refreshes the snapshot, logs every transition, and, when
    /// anything changed at all, re-synthesizes the command string. Returns
    /// whether anything did, so the caller knows to persist the record.
    #[verifier::rlimit(100)]
    #[verifier::spinoff_prover]
    pub fn validate_fields_and_update_cmd(
        &mut self,
        dir_probe: Option<DirProbe>,
        tool_path_exists: Option<bool>,
    ) -> (changed: bool)
        requires
            old(self).dir_changed() ==> dir_probe is Some,
            old(self).tool_changed() ==> tool_path_exists is Some,
            old(self).any_changed() ==> old(self).settings.inst_mode
                != DrToolInstrumentationMode::Invalid,
        ensures
            changed == old(self).any_changed(),
            final(self).settings == old(self).settings,
            final(self).symbol_path == old(self).symbol_path,
            settings_equal(final(self).settings_cached, old(self).settings),
            final(self).is_dr_dir_ok == old(self).spec_dir_ok_after(dir_probe),
            final(self).is_dr_tool_path_ok == old(self).spec_tool_ok_after(tool_path_exists),
            final(self).is_quote_in_cmd == old(self).spec_quote_after(),
            changed ==> final(self).cmd@ == spec_synthesize(
                old(self).settings,
                old(self).symbol_path@,
            ),
            !changed ==> final(self).cmd == old(self).cmd,
            old(self).log_text@.is_prefix_of(final(self).log_text@),
            !changed ==> final(self).log_text == old(self).log_text,
    {
        let mut is_update = false;
        let mut notes = String::new();
        if !(self.settings.dr_dir == self.settings_cached.dr_dir) {
            let probe = match dir_probe {
                Some(p) => p,
                None => {
                    proof {
                        assert(false);
                    }
                    DirProbe { dir_exists: false, bin64_exists: false, launcher_exists: false }
                },
            };
            self.is_dr_dir_ok = check_dr_dir(&probe);
            self.settings_cached.dr_dir = self.settings.dr_dir.clone();
            if self.is_dr_dir_ok {
                log_line(&mut notes, "DR dir ok: ", self.settings.dr_dir.as_str());
            } else {
                log_line(&mut notes, "Invalid DR dir: ", self.settings.dr_dir.as_str());
            }
            is_update = true;
        }
        if !(self.settings.dr_tool_path == self.settings_cached.dr_tool_path) {
            let exists = match tool_path_exists {
                Some(e) => e,
                None => {
                    proof {
                        assert(false);
                    }
                    false
                },
            };
            self.is_dr_tool_path_ok = check_dr_tool_path(
                exists,
                self.settings.dr_tool_path.as_str(),
            );
            self.settings_cached.dr_tool_path = self.settings.dr_tool_path.clone();
            if self.is_dr_tool_path_ok {
                log_line(
                    &mut notes,
                    "DR tool path ok: ",
                    self.settings.dr_tool_path.as_str(),
                );
            } else {
                log_line(
                    &mut notes,
                    "Invalid DR tool path: ",
                    self.settings.dr_tool_path.as_str(),
                );
            }
            is_update = true;
        }
        if !(self.settings.inst_module == self.settings_cached.inst_module) {
            self.settings_cached.inst_module = self.settings.inst_module.clone();
            log_line(
                &mut notes,
                "Instrumentation module changed: ",
                self.settings.inst_module.as_str(),
            );
            is_update = true;
        }
        if !(self.settings.inst_mode == self.settings_cached.inst_mode) {
            self.settings_cached.inst_mode = self.settings.inst_mode;
            log_line(&mut notes, "Instrumentation mode changed", "");
            is_update = true;
        }
        if !(self.settings.redirect_to_file == self.settings_cached.redirect_to_file) {
            self.settings_cached.redirect_to_file = self.settings.redirect_to_file.clone();
            log_line(
                &mut notes,
                "Redirect to file changed: ",
                self.settings.redirect_to_file.as_str(),
            );
            is_update = true;
        }
        if !(self.settings.substr == self.settings_cached.substr) {
            self.settings_cached.substr = self.settings.substr.clone();
            log_line(&mut notes, "Substring changed: ", self.settings.substr.as_str());
            is_update = true;
        }
        if !(self.settings.cmd == self.settings_cached.cmd) {
            self.settings_cached.cmd = self.settings.cmd.clone();
            log_line(
                &mut notes,
                "Target command line changed: ",
                self.settings.cmd.as_str(),
            );
            if str_contains_char(self.settings.cmd.as_str(), '"') {
                self.is_quote_in_cmd = true;
                log_line(&mut notes, "Error: quote in command line", "");
            } else {
                self.is_quote_in_cmd = false;
            }
            is_update = true;
        }
        if is_update {
            append_notes(&mut self.log_text, notes.as_str());
        } else {
            proof {
                lemma_prefix_refl(self.log_text@);
            }
        }
        if is_update {
            let new_cmd = synthesize(&self.settings, self.symbol_path.as_str());
            self.cmd = new_cmd;
        }
        is_update
    }
}

/// A double quote anywhere in the target command makes the record invalid
/// for execution, whatever every other field holds.
pub proof fn lemma_quote_blocks_run(m: MyApp)
    requires
        m.settings.cmd@.contains('"'),
    ensures
        !m.runnable(),
{
}

/// A session whose command a pass just rebuilt carries each mode flag as a
/// whole argument exactly when that mode is chosen. The free text inputs
/// must not smuggle the flags' distinguishing capitals in; a target command
/// that spells a flag out itself defeats the claim.
pub proof fn lemma_session_mode_flag(m: MyApp)
    requires
        m.cmd@ == spec_synthesize(m.settings, m.symbol_path@),
        m.settings.inst_mode != DrToolInstrumentationMode::Invalid,
        inputs_char_free(m.settings, m.symbol_path@, 'E'),
        inputs_char_free(m.settings, m.symbol_path@, 'I'),
    ensures
        has_flag(m.cmd@, "--printSymsExec"@) <==> m.settings.inst_mode
            == DrToolInstrumentationMode::Exec,
        has_flag(m.cmd@, "--printSymsInst"@) <==> m.settings.inst_mode
            == DrToolInstrumentationMode::Inst,
{
    lemma_mode_flag_selects(m.settings, m.symbol_path@);
}

/// A session whose command a pass just rebuilt names the filter flag never
/// when the filter is empty, and exactly once, followed by exactly the
/// filter text, when it is not. The free text inputs must not carry the
/// flag's capital `G`.
pub proof fn lemma_session_filter_flag(m: MyApp)
    requires
        m.cmd@ == spec_synthesize(m.settings, m.symbol_path@),
        inputs_char_free(m.settings, m.symbol_path@, 'G'),
    ensures
        m.settings.substr@.len() == 0 ==> !contains_seq(m.cmd@, "--printSymsGrep"@),
        m.settings.substr@.len() > 0 ==> contains_seq(
            m.cmd@,
            " --printSymsGrep "@ + m.settings.substr@,
        ),
        m.settings.substr@.len() > 0 ==> forall|i1: int, i2: int|
            occurs_at(m.cmd@, "--printSymsGrep"@, i1) && occurs_at(
                m.cmd@,
                "--printSymsGrep"@,
                i2,
            ) ==> i1 == i2,
{
    lemma_filter_flag(m.settings, m.symbol_path@);
}

} // verus!
