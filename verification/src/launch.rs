use crate::text::push_char;
use vstd::prelude::*;
use vstd::string::*;

verus! {

/// The module name with its extension taken off: everything before the last
/// `.`, or the whole name when there is none.
pub open spec fn module_base_of(m: Seq<char>) -> Seq<char>
    decreases m.len(),
{
    if m.len() == 0 {
        m
    } else if m.last() == '.' {
        m.drop_last()
    } else if m.contains('.') {
        module_base_of(m.drop_last())
    } else {
        m
    }
}

proof fn lemma_module_base_no_dot(m: Seq<char>)
    requires
        forall|j: int| 0 <= j < m.len() ==> m[j] != '.',
    ensures
        module_base_of(m) == m,
    decreases m.len(),
{
    if m.len() > 0 {
        if m.contains('.') {
            let i = choose|i: int| 0 <= i < m.len() && m[i] == '.';
        }
    }
}

proof fn lemma_module_base_last_dot(m: Seq<char>, k: int)
    requires
        0 <= k < m.len(),
        m[k] == '.',
        forall|j: int| k < j < m.len() ==> m[j] != '.',
    ensures
        module_base_of(m) == m.subrange(0, k),
    decreases m.len(),
{
    if k == m.len() - 1 {
        assert(m.drop_last() =~= m.subrange(0, k));
    } else {
        assert(m.last() != '.');
        assert(m.contains('.'));
        let t = m.drop_last();
        assert(t[k] == '.');
        lemma_module_base_last_dot(t, k);
        assert(t.subrange(0, k) =~= m.subrange(0, k));
    }
}

/// The module name up to its last `.`; the whole name when it has none.
pub fn module_base(m: &str) -> (r: String)
    ensures
        r@ == module_base_of(m@),
{
    let n = m.unicode_len();
    let mut dot: usize = n;
    let mut i: usize = 0;
    while i < n
        invariant
            n == m@.len(),
            i <= n,
            dot == n || (dot < i && m@[dot as int] == '.'),
            dot == n ==> forall|j: int| 0 <= j < i ==> m@[j] != '.',
            dot < n ==> forall|j: int| dot < j < i ==> m@[j] != '.',
        decreases n - i,
    {
        if m.get_char(i) == '.' {
            dot = i;
        }
        i += 1;
    }
    if dot == n {
        proof {
            lemma_module_base_no_dot(m@);
        }
        m.to_owned()
    } else {
        let r = m.substring_char(0, dot);
        proof {
            lemma_module_base_last_dot(m@, dot as int);
        }
        r.to_owned()
    }
}

/// The argument text handed to the external debugger: list the module's
/// symbols, then the target command.
pub open spec fn cdb_arg_string_of(module: Seq<char>, cmd: Seq<char>) -> Seq<char> {
    "-c \"x "@ + module_base_of(module) + "!*\" "@ + cmd
}

/// Composes the debugger's argument text for checking a module's symbols.
pub fn cdb_arg_string(inst_module: &str, cmd: &str) -> (r: String)
    ensures
        r@ == cdb_arg_string_of(inst_module@, cmd@),
{
    let mut r = "-c \"x ".to_owned();
    let base = module_base(inst_module);
    r.append(base.as_str());
    r.append("!*\" ");
    r.append(cmd);
    r
}

/// What a shell makes of a command line: its words, quotes honoured.
pub uninterp spec fn shell_split_of(s: Seq<char>) -> Seq<Seq<char>>;

/// Relies on `shlex::Shlex`: splits a command line into the words a POSIX
/// shell would see, honouring quotes; the words depend on the input
/// characters alone.
#[verifier::external_body]
fn shlex_split(s: &str) -> (r: Vec<String>)
    ensures
        r@.map_values(|w: String| w@) == shell_split_of(s@),
{
    shlex::Shlex::new(s).collect()
}

/// The debugger's argument vector: the composed argument text, split into
/// words as a shell would split them.
pub fn cdb_args(inst_module: &str, cmd: &str) -> (r: Vec<String>)
    ensures
        r@.map_values(|w: String| w@) == shell_split_of(cdb_arg_string_of(inst_module@, cmd@)),
{
    let s = cdb_arg_string(inst_module, cmd);
    shlex_split(s.as_str())
}

/// Where the external debugger is installed.
pub fn cdb_path() -> (r: &'static str)
    ensures
        r@ == "C:\\Program Files (x86)\\Windows Kits\\10\\Debuggers\\x64\\cdb.exe"@,
{
    "C:\\Program Files (x86)\\Windows Kits\\10\\Debuggers\\x64\\cdb.exe"
}

/// `s` with every line break replaced by a command chain, so a multi-line
/// command runs as one shell line.
pub open spec fn newlines_chained(s: Seq<char>) -> Seq<char>
    decreases s.len(),
{
    if s.len() == 0 {
        s
    } else if s.last() == '\n' {
        newlines_chained(s.drop_last()) + "&&"@
    } else {
        newlines_chained(s.drop_last()).push(s.last())
    }
}

/// Chains the lines of a command into one shell line.
pub fn replace_newlines(s: &str) -> (r: String)
    ensures
        r@ == newlines_chained(s@),
{
    let n = s.unicode_len();
    let mut r = String::new();
    let mut i: usize = 0;
    proof {
        assert(s@.subrange(0, 0) =~= Seq::<char>::empty());
    }
    while i < n
        invariant
            n == s@.len(),
            i <= n,
            r@ == newlines_chained(s@.subrange(0, i as int)),
        decreases n - i,
    {
        let c = s.get_char(i);
        proof {
            assert(s@.subrange(0, i + 1).drop_last() =~= s@.subrange(0, i as int));
            assert(s@.subrange(0, i + 1).last() == s@[i as int]);
        }
        if c == '\n' {
            r.append("&&");
        } else {
            push_char(&mut r, c);
        }
        i += 1;
    }
    proof {
        assert(s@.subrange(0, n as int) =~= s@);
    }
    r
}

} // verus!
