use vstd::prelude::*;
use vstd::string::*;

verus! {

/// Where the instrumentation runtime's archive is published.
pub fn dr_download_url() -> (r: &'static str)
    ensures
        r@ == "https://github.com/DynamoRIO/dynamorio/releases/download/release_9.0.1/DynamoRIO-Windows-9.0.1.zip"@,
{
    "https://github.com/DynamoRIO/dynamorio/releases/download/release_9.0.1/DynamoRIO-Windows-9.0.1.zip"
}

/// Where the tool binary is published.
pub fn dr_tool_download_url() -> (r: &'static str)
    ensures
        r@ == "https://github.com/expend20/DrSymLogger/releases/download/v0.0.1/DrSymLogger.dll"@,
{
    "https://github.com/expend20/DrSymLogger/releases/download/v0.0.1/DrSymLogger.dll"
}

/// The last path segment of a URL: everything after the final `/`.
pub open spec fn url_file_name_of(u: Seq<char>) -> Seq<char>
    decreases u.len(),
{
    if u.len() == 0 {
        u
    } else if u.last() == '/' {
        Seq::empty()
    } else {
        url_file_name_of(u.drop_last()).push(u.last())
    }
}

/// Past the last slash, the segment is just the remaining suffix.
proof fn lemma_url_file_name_suffix(u: Seq<char>, k: int)
    requires
        0 <= k <= u.len(),
        k == 0 || u[k - 1] == '/',
        forall|j: int| k <= j < u.len() ==> u[j] != '/',
    ensures
        url_file_name_of(u) == u.subrange(k, u.len() as int),
    decreases u.len(),
{
    if u.len() == 0 {
        assert(u.subrange(0, 0) =~= u);
    } else if k == u.len() {
        assert(u.subrange(k, u.len() as int) =~= Seq::<char>::empty());
    } else {
        lemma_url_file_name_suffix(u.drop_last(), k);
        assert(u.subrange(k, u.len() as int) =~= u.drop_last().subrange(
            k,
            u.drop_last().len() as int,
        ).push(u.last()));
    }
}

/// The name the downloaded file carries: the URL's last path segment.
pub fn url_file_name(url: &str) -> (r: String)
    ensures
        r@ == url_file_name_of(url@),
{
    let n = url.unicode_len();
    let mut start: usize = 0;
    let mut i: usize = 0;
    while i < n
        invariant
            n == url@.len(),
            i <= n,
            start <= i,
            start == 0 || url@[start - 1] == '/',
            forall|j: int| start <= j < i ==> url@[j] != '/',
        decreases n - i,
    {
        if url.get_char(i) == '/' {
            start = i + 1;
        }
        i += 1;
    }
    let r = url.substring_char(start, n);
    proof {
        lemma_url_file_name_suffix(url@, start as int);
    }
    r.to_owned()
}

/// The archive's name ends here: `.zip` spelled out at offset `i`.
pub open spec fn is_zip_at(s: Seq<char>, i: int) -> bool {
    0 <= i && i + 4 <= s.len() && s.subrange(i, i + 4) == ".zip"@
}

/// Everything before the first `.zip` in the name, or the whole name when
/// there is none: the directory an unpacked archive of that name fills.
pub open spec fn zip_stem_of(s: Seq<char>) -> Seq<char>
    decreases s.len(),
{
    if s.len() < 4 {
        s
    } else if s.subrange(0, 4) == ".zip"@ {
        Seq::empty()
    } else {
        seq![s[0]] + zip_stem_of(s.drop_first())
    }
}

proof fn lemma_zip_stem_first_match(s: Seq<char>, i: int)
    requires
        is_zip_at(s, i),
        forall|j: int| 0 <= j < i ==> !is_zip_at(s, j),
    ensures
        zip_stem_of(s) == s.subrange(0, i),
    decreases i,
{
    if i == 0 {
        assert(s.subrange(0, 0) =~= Seq::<char>::empty());
    } else {
        assert(!is_zip_at(s, 0));
        let t = s.drop_first();
        assert(t.subrange(i - 1, i + 3) =~= s.subrange(i, i + 4));
        assert(is_zip_at(t, i - 1));
        assert forall|j: int| 0 <= j < i - 1 implies !is_zip_at(t, j) by {
            if is_zip_at(t, j) {
                assert(s.subrange(j + 1, j + 5) =~= t.subrange(j, j + 4));
                assert(is_zip_at(s, j + 1));
            }
        }
        lemma_zip_stem_first_match(t, i - 1);
        assert(s.subrange(0, i) =~= seq![s[0]] + t.subrange(0, i - 1));
    }
}

proof fn lemma_zip_stem_no_match(s: Seq<char>)
    requires
        forall|j: int| !is_zip_at(s, j),
    ensures
        zip_stem_of(s) == s,
    decreases s.len(),
{
    if s.len() >= 4 {
        assert(!is_zip_at(s, 0));
        let t = s.drop_first();
        assert forall|j: int| !is_zip_at(t, j) by {
            if is_zip_at(t, j) {
                assert(s.subrange(j + 1, j + 5) =~= t.subrange(j, j + 4));
                assert(is_zip_at(s, j + 1));
            }
        }
        lemma_zip_stem_no_match(t);
        assert(seq![s[0]] + t =~= s);
    }
}

/// The part of an archive's file name before its first `.zip`.
pub fn zip_stem(name: &str) -> (r: String)
    ensures
        r@ == zip_stem_of(name@),
{
    let n = name.unicode_len();
    if n < 4 {
        proof {
            assert(forall|j: int| !is_zip_at(name@, j));
            lemma_zip_stem_no_match(name@);
        }
        return name.to_owned();
    }
    let mut i: usize = 0;
    while i <= n - 4
        invariant
            n == name@.len(),
            4 <= n,
            i <= n - 3,
            forall|j: int| 0 <= j < i ==> !is_zip_at(name@, j),
        decreases n - i,
    {
        if name.get_char(i) == '.' && name.get_char(i + 1) == 'z' && name.get_char(i + 2) == 'i'
            && name.get_char(i + 3) == 'p' {
            proof {
                reveal_strlit(".zip");
                assert(name@.subrange(i as int, i + 4) =~= ".zip"@);
                lemma_zip_stem_first_match(name@, i as int);
            }
            return name.substring_char(0, i).to_owned();
        }
        proof {
            reveal_strlit(".zip");
            if is_zip_at(name@, i as int) {
                assert(name@.subrange(i as int, i + 4)[0] == name@[i as int]);
                assert(name@.subrange(i as int, i + 4)[1] == name@[i + 1]);
                assert(name@.subrange(i as int, i + 4)[2] == name@[i + 2]);
                assert(name@.subrange(i as int, i + 4)[3] == name@[i + 3]);
            }
        }
        i += 1;
    }
    proof {
        assert forall|j: int| !is_zip_at(name@, j) by {
            if is_zip_at(name@, j) {
                assert(0 <= j < i);
            }
        }
        lemma_zip_stem_no_match(name@);
    }
    name.to_owned()
}

/// What the fetch step of a provisioning task reported.
#[derive(Debug)]
pub enum FetchOutcome {
    /// The whole body was written to a local file named after the URL's
    /// last path segment.
    Fetched,
    /// The server answered, but not with a success status.
    HttpFailure { status: u16 },
    /// The response could not be read, or the local file not created or
    /// written.
    IoFailure,
}

/// What the unpacking step of a provisioning task reported.
#[derive(Debug)]
pub enum ExtractOutcome {
    /// Every entry landed under the destination directory.
    Extracted,
    /// The archive could not be opened or an entry not read.
    ArchiveFailure,
    /// A destination directory or file could not be written.
    IoFailure,
}

/// What a finished provisioning task delivers to the session: exactly one
/// of a resolved local path or a failure report, never silence.
#[derive(Debug)]
pub enum ProvisionOutcome {
    Success { resolved_path: String },
    Failure { message: String },
}

/// The course of a provisioning task after its fetch step.
#[derive(Debug)]
pub enum AfterFetch {
    /// An archive arrived; unpack it into the destination directory next.
    RunExtract { archive_path: String },
    /// The task is over, one way or the other.
    Done { outcome: ProvisionOutcome },
}

/// Decides how a provisioning task goes on once its fetch step reported: a
/// failed fetch ends the task with a failure outcome and never with a
/// resolved path; a fetched archive goes on to unpacking; a fetched plain
/// binary resolves to its place under the destination directory.
pub fn after_fetch(url: &str, dest_dir: &str, is_archive: bool, fetch: &FetchOutcome) -> (r:
    AfterFetch)
    ensures
        fetch matches FetchOutcome::Fetched && is_archive ==> (r matches AfterFetch::RunExtract {
            archive_path,
        } && archive_path@ == url_file_name_of(url@)),
        fetch matches FetchOutcome::Fetched && !is_archive ==> (r matches AfterFetch::Done {
            outcome: ProvisionOutcome::Success { resolved_path },
        } && resolved_path@ == dest_dir@ + "\\"@ + url_file_name_of(url@)),
        !(fetch matches FetchOutcome::Fetched) ==> (r matches AfterFetch::Done {
            outcome: ProvisionOutcome::Failure { .. },
        }),
        fetch matches FetchOutcome::HttpFailure { .. } ==> (r matches AfterFetch::Done {
            outcome: ProvisionOutcome::Failure { message },
        } && message@ == "download failed: the server did not answer with success"@),
        fetch matches FetchOutcome::IoFailure ==> (r matches AfterFetch::Done {
            outcome: ProvisionOutcome::Failure { message },
        } && message@ == "download failed: the file could not be fetched or written"@),
{
    match fetch {
        FetchOutcome::Fetched => {
            let name = url_file_name(url);
            if is_archive {
                AfterFetch::RunExtract { archive_path: name }
            } else {
                let mut p = dest_dir.to_owned();
                p.append("\\");
                p.append(name.as_str());
                AfterFetch::Done { outcome: ProvisionOutcome::Success { resolved_path: p } }
            }
        },
        FetchOutcome::HttpFailure { .. } => AfterFetch::Done {
            outcome: ProvisionOutcome::Failure {
                message: "download failed: the server did not answer with success".to_owned(),
            },
        },
        FetchOutcome::IoFailure => AfterFetch::Done {
            outcome: ProvisionOutcome::Failure {
                message: "download failed: the file could not be fetched or written".to_owned(),
            },
        },
    }
}

/// Decides how an archive task ends once unpacking reported: success
/// resolves to the directory the archive's stem names under the
/// destination; any failure ends the task with a failure outcome.
pub fn after_extract(url: &str, dest_dir: &str, extract: &ExtractOutcome) -> (r: ProvisionOutcome)
    ensures
        extract matches ExtractOutcome::Extracted ==> (r matches ProvisionOutcome::Success {
            resolved_path,
        } && resolved_path@ == dest_dir@ + "\\"@ + zip_stem_of(url_file_name_of(url@))),
        !(extract matches ExtractOutcome::Extracted) ==> (r matches ProvisionOutcome::Failure {
            ..
        }),
        extract matches ExtractOutcome::ArchiveFailure ==> (r matches ProvisionOutcome::Failure {
            message,
        } && message@ == "unpacking failed: the archive could not be read"@),
        extract matches ExtractOutcome::IoFailure ==> (r matches ProvisionOutcome::Failure {
            message,
        } && message@ == "unpacking failed: a file could not be written"@),
{
    match extract {
        ExtractOutcome::Extracted => {
            let name = url_file_name(url);
            let stem = zip_stem(name.as_str());
            let mut p = dest_dir.to_owned();
            p.append("\\");
            p.append(stem.as_str());
            ProvisionOutcome::Success { resolved_path: p }
        },
        ExtractOutcome::ArchiveFailure => ProvisionOutcome::Failure {
            message: "unpacking failed: the archive could not be read".to_owned(),
        },
        ExtractOutcome::IoFailure => ProvisionOutcome::Failure {
            message: "unpacking failed: a file could not be written".to_owned(),
        },
    }
}

/// Whether a provisioning task for one asset kind is outstanding.
#[derive(Clone, Copy, PartialEq, Eq, Structural, Debug)]
pub enum ProvisionState {
    Idle,
    Running,
}

/// What a started task carries with it: its own copies of the inputs, so it
/// never touches the session's record.
pub struct TaskRequest {
    pub url: String,
    pub dest_dir: String,
    pub is_archive: bool,
}

/// Bookkeeping for one asset kind's provisioning: at most one task runs at
/// a time, and each started task ends in exactly one consumed outcome.
pub struct Provisioner {
    pub state: ProvisionState,
}

impl Provisioner {
    /// A fresh provisioner has nothing outstanding.
    pub fn new() -> (p: Self)
        ensures
            p.state == ProvisionState::Idle,
    {
        Provisioner { state: ProvisionState::Idle }
    }

    /// Starting is refused while a task is outstanding, and pointless when
    /// the asset is already valid; otherwise the task's inputs are fixed
    /// here and the state moves to `Running`.
    pub fn start(&mut self, url: &str, dest_dir: &str, is_archive: bool, already_valid: bool) -> (
        task: Option<TaskRequest>)
        ensures
            old(self).state == ProvisionState::Running || already_valid ==> final(self).state
                == old(self).state && task is None,
            old(self).state == ProvisionState::Idle && !already_valid ==> final(self).state
                == ProvisionState::Running && (task matches Some(t) && t.url@ == url@
                && t.dest_dir@ == dest_dir@ && t.is_archive == is_archive),
    {
        if already_valid {
            return None;
        }
        match self.state {
            ProvisionState::Running => None,
            ProvisionState::Idle => {
                self.state = ProvisionState::Running;
                Some(
                    TaskRequest {
                        url: url.to_owned(),
                        dest_dir: dest_dir.to_owned(),
                        is_archive,
                    },
                )
            },
        }
    }

    /// The owner consumed a delivered outcome: the task is over, the state
    /// returns to `Idle` ready for reuse, and only a successful task hands
    /// a resolved path on to the configuration field.
    pub fn complete(&mut self, outcome: ProvisionOutcome) -> (path: Option<String>)
        requires
            old(self).state == ProvisionState::Running,
        ensures
            final(self).state == ProvisionState::Idle,
            outcome matches ProvisionOutcome::Success { resolved_path } ==> (path matches Some(p)
                && p == resolved_path),
            outcome matches ProvisionOutcome::Failure { .. } ==> path is None,
    {
        self.state = ProvisionState::Idle;
        match outcome {
            ProvisionOutcome::Success { resolved_path } => Some(resolved_path),
            ProvisionOutcome::Failure { .. } => None,
        }
    }
}

} // verus!
