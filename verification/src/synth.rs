use crate::config::{DrToolInstrumentationMode, Settings};
use crate::text::{
    char_free, contains_seq, flag_at, has_flag, lemma_char_free_concat, lemma_has_flag_contains,
    lemma_no_char_no_contains, lemma_occurs_in_middle, lemma_single_char_pos,
    lemma_unique_occurrence, occurs_at,
};
use vstd::prelude::*;
use vstd::string::*;

verus! {

/// The flag that selects the instrumentation granularity.
pub open spec fn mode_flag(m: DrToolInstrumentationMode) -> Seq<char> {
    match m {
        DrToolInstrumentationMode::Exec => "--printSymsExec"@,
        DrToolInstrumentationMode::Inst => "--printSymsInst"@,
        DrToolInstrumentationMode::Invalid => Seq::empty(),
    }
}

/// Everything before the mode flag: the symbol-path prefix and the launcher
/// invocation up to its mode argument.
pub open spec fn synth_prefix(s: Settings, sym: Seq<char>) -> Seq<char> {
    "set _NT_SYMBOL_PATH="@ + sym + " && "@ + s.dr_dir@ + "\\bin64\\drrun.exe -c "@
        + s.dr_tool_path@ + " "@
}

/// The optional filter flag with its argument.
pub open spec fn grep_part(s: Settings) -> Seq<char> {
    if s.substr@.len() > 0 {
        " --printSymsGrep "@ + s.substr@
    } else {
        Seq::empty()
    }
}

/// The optional redirection suffix: standard error merged into standard
/// output, both sent to the chosen file.
pub open spec fn redirect_part(s: Settings) -> Seq<char> {
    if s.redirect_to_file@.len() > 0 {
        " > "@ + s.redirect_to_file@ + " 2>&1"@
    } else {
        Seq::empty()
    }
}

/// The module name and everything after it: the optional filter, the target
/// command and the optional redirection.
pub open spec fn synth_tail(s: Settings) -> Seq<char> {
    s.inst_module@ + grep_part(s) + " -- "@ + s.cmd@ + redirect_part(s)
}

/// Everything after the mode flag: the fixed console and module flags, then
/// the tail.
pub open spec fn synth_suffix(s: Settings) -> Seq<char> {
    " --printSymsExecConsole --printSymsModule "@ + synth_tail(s)
}

/// The whole synthesized command string.
pub open spec fn spec_synthesize(s: Settings, sym: Seq<char>) -> Seq<char> {
    synth_prefix(s, sym) + mode_flag(s.inst_mode) + synth_suffix(s)
}

/// Builds the authoritative run string for a configuration. Pure: the result
/// is a function of the settings and the resolved symbol path alone, so
/// repeated calls on the same inputs give the same string. An unset mode must
/// never reach synthesis.
pub fn synthesize(s: &Settings, symbol_path: &str) -> (r: String)
    requires
        s.inst_mode != DrToolInstrumentationMode::Invalid,
    ensures
        r@ == spec_synthesize(*s, symbol_path@),
{
    let mut r = "set _NT_SYMBOL_PATH=".to_owned();
    r.append(symbol_path);
    r.append(" && ");
    r.append(s.dr_dir.as_str());
    r.append("\\bin64\\drrun.exe -c ");
    r.append(s.dr_tool_path.as_str());
    r.append(" ");
    match s.inst_mode {
        DrToolInstrumentationMode::Exec => r.append("--printSymsExec"),
        DrToolInstrumentationMode::Inst => r.append("--printSymsInst"),
        DrToolInstrumentationMode::Invalid => {
            assert(false);
        },
    }
    r.append(" --printSymsExecConsole --printSymsModule ");
    r.append(s.inst_module.as_str());
    if !s.substr.as_str().is_empty() {
        r.append(" --printSymsGrep ");
        r.append(s.substr.as_str());
    }
    r.append(" -- ");
    r.append(s.cmd.as_str());
    if !s.redirect_to_file.as_str().is_empty() {
        r.append(" > ");
        r.append(s.redirect_to_file.as_str());
        r.append(" 2>&1");
    }
    proof {
        assert(r@ =~= spec_synthesize(*s, symbol_path@));
    }
    r
}

/// None of the freely chosen text inputs contains `c`.
pub open spec fn inputs_char_free(s: Settings, sym: Seq<char>, c: char) -> bool {
    char_free(sym, c) && char_free(s.dr_dir@, c) && char_free(s.dr_tool_path@, c) && char_free(
        s.inst_module@,
        c,
    ) && char_free(s.substr@, c) && char_free(s.redirect_to_file@, c) && char_free(s.cmd@, c)
}

/// Synthesis is pure: the string is a function of the configuration and the
/// resolved symbol path alone, so any two results for the same inputs are
/// the same string, whatever happened between the calls.
pub proof fn lemma_synthesize_deterministic(
    s: Settings,
    sym: Seq<char>,
    r1: Seq<char>,
    r2: Seq<char>,
)
    requires
        r1 == spec_synthesize(s, sym),
        r2 == spec_synthesize(s, sym),
    ensures
        r1 == r2,
{
}

proof fn lemma_prefix_char_free(s: Settings, sym: Seq<char>, c: char)
    requires
        inputs_char_free(s, sym, c),
        char_free("set _NT_SYMBOL_PATH="@, c),
        char_free(" && "@, c),
        char_free("\\bin64\\drrun.exe -c "@, c),
        char_free(" "@, c),
    ensures
        char_free(synth_prefix(s, sym), c),
{
    let a1 = "set _NT_SYMBOL_PATH="@ + sym;
    lemma_char_free_concat("set _NT_SYMBOL_PATH="@, sym, c);
    let a2 = a1 + " && "@;
    lemma_char_free_concat(a1, " && "@, c);
    let a3 = a2 + s.dr_dir@;
    lemma_char_free_concat(a2, s.dr_dir@, c);
    let a4 = a3 + "\\bin64\\drrun.exe -c "@;
    lemma_char_free_concat(a3, "\\bin64\\drrun.exe -c "@, c);
    let a5 = a4 + s.dr_tool_path@;
    lemma_char_free_concat(a4, s.dr_tool_path@, c);
    lemma_char_free_concat(a5, " "@, c);
}

proof fn lemma_tail_char_free(s: Settings, sym: Seq<char>, c: char)
    requires
        inputs_char_free(s, sym, c),
        s.substr@.len() > 0 ==> char_free(" --printSymsGrep "@, c),
        char_free(" -- "@, c),
        char_free(" > "@, c),
        char_free(" 2>&1"@, c),
    ensures
        char_free(synth_tail(s), c),
{
    if s.substr@.len() > 0 {
        lemma_char_free_concat(" --printSymsGrep "@, s.substr@, c);
    }
    if s.redirect_to_file@.len() > 0 {
        let r1 = " > "@ + s.redirect_to_file@;
        lemma_char_free_concat(" > "@, s.redirect_to_file@, c);
        lemma_char_free_concat(r1, " 2>&1"@, c);
    }
    let t1 = s.inst_module@ + grep_part(s);
    lemma_char_free_concat(s.inst_module@, grep_part(s), c);
    let t2 = t1 + " -- "@;
    lemma_char_free_concat(t1, " -- "@, c);
    let t3 = t2 + s.cmd@;
    lemma_char_free_concat(t2, s.cmd@, c);
    lemma_char_free_concat(t3, redirect_part(s), c);
}

/// The mode flag stands in the synthesized string as a whole argument
/// exactly when it is the chosen mode: the string carries `--printSymsExec`
/// that way only in `Exec` mode and `--printSymsInst` only in `Inst` mode.
/// The free text inputs must not smuggle the flags' distinguishing capitals
/// in; a target command that itself spells out a flag defeats the claim.
pub proof fn lemma_mode_flag_selects(s: Settings, sym: Seq<char>)
    requires
        s.inst_mode != DrToolInstrumentationMode::Invalid,
        inputs_char_free(s, sym, 'E'),
        inputs_char_free(s, sym, 'I'),
    ensures
        has_flag(spec_synthesize(s, sym), "--printSymsExec"@) <==> s.inst_mode
            == DrToolInstrumentationMode::Exec,
        has_flag(spec_synthesize(s, sym), "--printSymsInst"@) <==> s.inst_mode
            == DrToolInstrumentationMode::Inst,
{
    reveal_strlit("set _NT_SYMBOL_PATH=");
    reveal_strlit(" && ");
    reveal_strlit("\\bin64\\drrun.exe -c ");
    reveal_strlit(" ");
    reveal_strlit("--printSymsExec");
    reveal_strlit("--printSymsInst");
    reveal_strlit(" --printSymsExecConsole --printSymsModule ");
    reveal_strlit(" --printSymsGrep ");
    reveal_strlit(" -- ");
    reveal_strlit(" > ");
    reveal_strlit(" 2>&1");
    let hay = spec_synthesize(s, sym);
    let l = " --printSymsExecConsole --printSymsModule "@;
    let flag = mode_flag(s.inst_mode);
    // The chosen flag stands right after the prefix, followed by a space.
    lemma_occurs_in_middle(synth_prefix(s, sym), flag, synth_suffix(s));
    assert(synth_suffix(s)[0] == ' ');
    assert(hay[synth_prefix(s, sym).len() + flag.len() as int] == synth_suffix(s)[0]);
    assert(flag_at(hay, flag, synth_prefix(s, sym).len() as int));
    if s.inst_mode == DrToolInstrumentationMode::Exec {
        // Nothing in the string carries an 'I', so the other flag is absent.
        lemma_prefix_char_free(s, sym, 'I');
        lemma_tail_char_free(s, sym, 'I');
        let a1 = synth_prefix(s, sym) + flag;
        lemma_char_free_concat(synth_prefix(s, sym), flag, 'I');
        let a2 = l + synth_tail(s);
        lemma_char_free_concat(l, synth_tail(s), 'I');
        lemma_char_free_concat(a1, a2, 'I');
        assert("--printSymsInst"@[11] == 'I');
        lemma_no_char_no_contains(hay, "--printSymsInst"@, 'I', 11);
        if has_flag(hay, "--printSymsInst"@) {
            lemma_has_flag_contains(hay, "--printSymsInst"@);
        }
    } else {
        // The one capital 'E' outside the console literal would have to head
        // a whole-argument `--printSymsExec`, but the character after the
        // only candidate position is the 'C' of `ExecConsole`, not a space.
        lemma_prefix_char_free(s, sym, 'E');
        lemma_tail_char_free(s, sym, 'E');
        let a = synth_prefix(s, sym) + flag;
        lemma_char_free_concat(synth_prefix(s, sym), flag, 'E');
        let b = synth_tail(s);
        assert(hay =~= a + l + b);
        assert(forall|j: int| 0 <= j < l.len() && l[j] == 'E' ==> j == 12);
        lemma_single_char_pos(a, l, b, 'E', 12);
        let exec = "--printSymsExec"@;
        assert forall|i: int| !flag_at(hay, exec, i) by {
            if flag_at(hay, exec, i) {
                assert(hay.subrange(i, i + 15)[11] == exec[11]);
                assert(hay[i + 11] == 'E');
                assert((a + l + b)[i + 11] == 'E');
                assert(i == a.len() + 1);
                assert(hay[i + 15] == l[16]);
                assert(l[16] == 'C');
            }
        }
    }
}

/// With an empty filter the synthesized string never names the filter flag;
/// with a filter it names it exactly once, immediately followed by exactly
/// the filter text. The free text inputs must not carry the flag's capital
/// `G`; a target command that spells the flag out itself defeats the claim.
pub proof fn lemma_filter_flag(s: Settings, sym: Seq<char>)
    requires
        inputs_char_free(s, sym, 'G'),
    ensures
        s.substr@.len() == 0 ==> !contains_seq(spec_synthesize(s, sym), "--printSymsGrep"@),
        s.substr@.len() > 0 ==> contains_seq(
            spec_synthesize(s, sym),
            " --printSymsGrep "@ + s.substr@,
        ),
        s.substr@.len() > 0 ==> forall|i1: int, i2: int|
            occurs_at(spec_synthesize(s, sym), "--printSymsGrep"@, i1) && occurs_at(
                spec_synthesize(s, sym),
                "--printSymsGrep"@,
                i2,
            ) ==> i1 == i2,
{
    reveal_strlit("set _NT_SYMBOL_PATH=");
    reveal_strlit(" && ");
    reveal_strlit("\\bin64\\drrun.exe -c ");
    reveal_strlit(" ");
    reveal_strlit("--printSymsExec");
    reveal_strlit("--printSymsInst");
    reveal_strlit(" --printSymsExecConsole --printSymsModule ");
    reveal_strlit(" --printSymsGrep ");
    reveal_strlit("--printSymsGrep");
    reveal_strlit(" -- ");
    reveal_strlit(" > ");
    reveal_strlit(" 2>&1");
    let hay = spec_synthesize(s, sym);
    let l = " --printSymsExecConsole --printSymsModule "@;
    let g = " --printSymsGrep "@;
    assert(char_free(mode_flag(s.inst_mode), 'G'));
    lemma_prefix_char_free(s, sym, 'G');
    let a1 = synth_prefix(s, sym) + mode_flag(s.inst_mode);
    lemma_char_free_concat(synth_prefix(s, sym), mode_flag(s.inst_mode), 'G');
    if s.substr@.len() == 0 {
        lemma_tail_char_free(s, sym, 'G');
        let a2 = l + synth_tail(s);
        lemma_char_free_concat(l, synth_tail(s), 'G');
        lemma_char_free_concat(a1, a2, 'G');
        assert(hay =~= a1 + a2);
        assert("--printSymsGrep"@[11] == 'G');
        lemma_no_char_no_contains(hay, "--printSymsGrep"@, 'G', 11);
    } else {
        let a2 = a1 + l;
        lemma_char_free_concat(a1, l, 'G');
        let a = a2 + s.inst_module@;
        lemma_char_free_concat(a2, s.inst_module@, 'G');
        if s.redirect_to_file@.len() > 0 {
            lemma_char_free_concat(" > "@, s.redirect_to_file@, 'G');
            lemma_char_free_concat(" > "@ + s.redirect_to_file@, " 2>&1"@, 'G');
        }
        let b2a = " -- "@ + s.cmd@;
        lemma_char_free_concat(" -- "@, s.cmd@, 'G');
        let b2 = b2a + redirect_part(s);
        lemma_char_free_concat(b2a, redirect_part(s), 'G');
        lemma_char_free_concat(s.substr@, b2, 'G');
        // The filter flag with its text stands between the module name and
        // the target-command separator.
        assert(hay =~= a + (g + s.substr@) + b2);
        lemma_occurs_in_middle(a, g + s.substr@, b2);
        assert(occurs_at(hay, g + s.substr@, a.len() as int));
        // The literal's capital is the only `G` in the string, so the flag
        // cannot stand at two positions.
        assert(hay =~= a + g + (s.substr@ + b2));
        assert(forall|j: int| 0 <= j < g.len() && g[j] == 'G' ==> j == 12);
        lemma_single_char_pos(a, g, s.substr@ + b2, 'G', 12);
        assert("--printSymsGrep"@[11] == 'G');
        lemma_unique_occurrence(hay, "--printSymsGrep"@, 'G', 11, a.len() + 12 as int);
    }
}

/// The synthesized string with the redirection suffix left off.
pub open spec fn spec_synth_unredirected(s: Settings, sym: Seq<char>) -> Seq<char> {
    synth_prefix(s, sym) + mode_flag(s.inst_mode) + (" --printSymsExecConsole --printSymsModule "@
        + (s.inst_module@ + grep_part(s) + " -- "@ + s.cmd@))
}

/// With no redirection target the synthesized string is exactly the
/// unredirected command; with one, it is exactly that command followed by
/// the suffix that sends standard output to the file and merges standard
/// error into it.
pub proof fn lemma_redirect_suffix(s: Settings, sym: Seq<char>)
    ensures
        s.redirect_to_file@.len() == 0 ==> spec_synthesize(s, sym) == spec_synth_unredirected(
            s,
            sym,
        ),
        s.redirect_to_file@.len() > 0 ==> spec_synthesize(s, sym) == spec_synth_unredirected(s, sym)
            + " > "@ + s.redirect_to_file@ + " 2>&1"@,
{
    if s.redirect_to_file@.len() == 0 {
        assert(spec_synthesize(s, sym) =~= spec_synth_unredirected(s, sym));
    } else {
        assert(spec_synthesize(s, sym) =~= spec_synth_unredirected(s, sym) + " > "@
            + s.redirect_to_file@ + " 2>&1"@);
    }
}

} // verus!
