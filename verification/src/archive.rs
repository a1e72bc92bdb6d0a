use crate::text::{is_sep, lemma_prefix_refl, lemma_prefix_trans, str_contains_char};
use vstd::prelude::*;
use vstd::string::*;

verus! {

/// How many entries the archive in these bytes has; nothing when the bytes
/// do not open as an archive. What the archive reader computes from the
/// bytes alone.
pub uninterp spec fn zip_entry_count_of(data: Seq<u8>) -> Option<nat>;

/// The stored name and decompressed contents of one entry; nothing when the
/// entry cannot be read. What the archive reader computes from the bytes
/// and the index alone.
pub uninterp spec fn zip_entry_of(data: Seq<u8>, i: int) -> Option<(Seq<char>, Seq<u8>)>;

/// Relies on `zip::ZipArchive::new` and `zip::ZipArchive::len`: whether the
/// bytes open as a zip archive, and how many entries it has. The answer is
/// a function of the bytes alone.
#[verifier::external_body]
fn zip_entry_count(data: &Vec<u8>) -> (r: Option<usize>)
    ensures
        r is Some <==> zip_entry_count_of(data@) is Some,
        r matches Some(n) ==> zip_entry_count_of(data@) == Some(n as nat),
{
    let cur = std::io::Cursor::new(data.clone());
    match zip::ZipArchive::new(cur) {
        Ok(a) => Some(a.len()),
        Err(_) => None,
    }
}

/// Relies on `zip::ZipArchive::by_index_decrypt`, `zip::read::ZipFile::name`
/// and `std::io::Read::read_to_end`: the stored name and decompressed bytes
/// of entry `i`. The answer is a function of the bytes and the index alone.
/// The decrypting accessor is used with an empty password because it hands
/// every refusal back as a value, where the plain accessor would panic on an
/// entry whose metadata demands a password; such an entry reads as nothing.
#[verifier::external_body]
fn zip_entry(data: &Vec<u8>, i: usize) -> (r: Option<(String, Vec<u8>)>)
    requires
        zip_entry_count_of(data@) matches Some(n) && i < n,
    ensures
        r matches Some(e) ==> zip_entry_of(data@, i as int) == Some((e.0@, e.1@)),
        r is None ==> zip_entry_of(data@, i as int) is None,
{
    let cur = std::io::Cursor::new(data.clone());
    let mut archive = zip::ZipArchive::new(cur).ok()?;
    let mut entry = match archive.by_index_decrypt(i, b"") {
        Ok(Ok(e)) => e,
        _ => return None,
    };
    let name = entry.name().to_owned();
    let mut bytes = Vec::new();
    std::io::Read::read_to_end(&mut entry, &mut bytes).ok()?;
    Some((name, bytes))
}

/// A parent-step path segment: `..` fenced by separators or the name's
/// ends.
pub open spec fn dotdot_at(s: Seq<char>, i: int) -> bool {
    0 <= i && i + 2 <= s.len() && s[i] == '.' && s[i + 1] == '.' && (i == 0 || is_sep(s[i - 1]))
        && (i + 2 == s.len() || is_sep(s[i + 2]))
}

/// The name steps to a parent directory somewhere.
pub open spec fn has_dotdot_segment(s: Seq<char>) -> bool {
    exists|i: int| dotdot_at(s, i)
}

/// An entry name that maps to a place inside the destination: non-empty,
/// relative, naming no drive, never stepping to a parent.
pub open spec fn safe_entry_name(name: Seq<char>) -> bool {
    name.len() > 0 && !is_sep(name[0]) && !name.contains(':') && !has_dotdot_segment(name)
}

/// A directory entry: the stored name ends in a separator.
pub open spec fn is_dir_name(name: Seq<char>) -> bool {
    name.len() > 0 && is_sep(name[name.len() - 1])
}

/// The entry's relative destination: its stored name without the trailing
/// separators that mark a directory.
pub open spec fn trimmed_name(name: Seq<char>) -> Seq<char>
    decreases name.len(),
{
    if name.len() > 0 && is_sep(name.last())  {
        trimmed_name(name.drop_last())
    } else {
        name
    }
}

/// Where an entry lands: the destination root, one separator, the relative
/// name.
pub open spec fn dest_path_of(dest: Seq<char>, name: Seq<char>) -> Seq<char> {
    dest + "\\"@ + trimmed_name(name)
}

/// Whether the stored name maps to a place inside the destination.
fn entry_name_safe(name: &str) -> (b: bool)
    ensures
        b == safe_entry_name(name@),
{
    let n = name.unicode_len();
    if n == 0 {
        return false;
    }
    let c0 = name.get_char(0);
    if c0 == '/' || c0 == '\\' {
        return false;
    }
    if str_contains_char(name, ':') {
        return false;
    }
    if n < 2 {
        proof {
            assert(forall|j: int| !dotdot_at(name@, j));
        }
        return true;
    }
    let mut i: usize = 0;
    while i <= n - 2
        invariant
            n == name@.len(),
            2 <= n,
            i <= n - 1,
            forall|j: int| 0 <= j < i ==> !dotdot_at(name@, j),
        decreases n - i,
    {
        let mut hit = name.get_char(i) == '.' && name.get_char(i + 1) == '.';
        if hit && i > 0 {
            let p = name.get_char(i - 1);
            hit = p == '/' || p == '\\';
        }
        if hit && i + 2 < n {
            let q = name.get_char(i + 2);
            hit = q == '/' || q == '\\';
        }
        if hit {
            proof {
                assert(dotdot_at(name@, i as int));
            }
            return false;
        }
        i += 1;
    }
    proof {
        assert forall|j: int| !dotdot_at(name@, j) by {
            if dotdot_at(name@, j) {
                assert(0 <= j < i);
            }
        }
    }
    true
}

proof fn lemma_trimmed_suffix(s: Seq<char>, e: int)
    requires
        0 <= e <= s.len(),
        forall|j: int| e <= j < s.len() ==> is_sep(s[j]),
        e == 0 || !is_sep(s[e - 1]),
    ensures
        trimmed_name(s) == s.subrange(0, e),
    decreases s.len(),
{
    if s.len() == e {
        assert(s.subrange(0, e) =~= s);
    } else {
        assert(is_sep(s.last()));
        lemma_trimmed_suffix(s.drop_last(), e);
        assert(s.drop_last().subrange(0, e) =~= s.subrange(0, e));
    }
}

/// The stored name without its trailing separators.
fn trimmed(name: &str) -> (r: String)
    ensures
        r@ == trimmed_name(name@),
{
    let n = name.unicode_len();
    let mut end: usize = 0;
    let mut i: usize = 0;
    while i < n
        invariant
            n == name@.len(),
            i <= n,
            end <= i,
            end == 0 || !is_sep(name@[end - 1]),
            forall|j: int| end <= j < i ==> is_sep(name@[j]),
        decreases n - i,
    {
        let c = name.get_char(i);
        if !(c == '/' || c == '\\') {
            end = i + 1;
        }
        i += 1;
    }
    let r = name.substring_char(0, end);
    proof {
        lemma_trimmed_suffix(name@, end as int);
    }
    r.to_owned()
}

/// One step of carrying an archive over to the destination: create a
/// directory, or write a file's decompressed bytes.
#[derive(Debug)]
pub enum EntryAction {
    MakeDir { path: String },
    WriteFile { path: String, contents: Vec<u8> },
}

/// Why no extraction plan could be made.
#[derive(Debug, PartialEq, Eq, Structural, Clone, Copy)]
pub enum ArchiveError {
    /// The bytes do not open as an archive.
    NotAnArchive,
    /// This entry could not be read.
    EntryUnreadable { index: usize },
    /// This entry names a place outside the destination directory.
    UnsafeEntryName { index: usize },
}

/// How one planned action must relate to the archive entry it is for.
pub open spec fn action_for_entry(
    a: EntryAction,
    entry: Option<(Seq<char>, Seq<u8>)>,
    dest: Seq<char>,
) -> bool {
    entry matches Some(e) && safe_entry_name(e.0) && (if is_dir_name(e.0) {
        a matches EntryAction::MakeDir { path } && path@ == dest_path_of(dest, e.0)
    } else {
        a matches EntryAction::WriteFile { path, contents } && path@ == dest_path_of(dest, e.0)
            && contents@ == e.1
    })
}

/// Reduces the archive held in `data` to the filesystem steps that unpack
/// it under `dest_dir`, preserving every entry's relative path; an entry
/// that would land outside the destination is refused, not neutralized
/// silently.
pub fn plan_extraction(data: &Vec<u8>, dest_dir: &str) -> (r: Result<
    Vec<EntryAction>,
    ArchiveError,
>)
    ensures
        r matches Ok(actions) ==> zip_entry_count_of(data@) matches Some(n) && actions@.len() == n
            && forall|j: int|
            0 <= j < actions@.len() ==> action_for_entry(
                #[trigger] actions@[j],
                zip_entry_of(data@, j),
                dest_dir@,
            ),
        r matches Err(ArchiveError::NotAnArchive) <==> zip_entry_count_of(data@) is None,
        r matches Err(ArchiveError::EntryUnreadable { index }) ==> (zip_entry_count_of(data@)
            matches Some(n) && index < n && zip_entry_of(data@, index as int) is None),
        r matches Err(ArchiveError::UnsafeEntryName { index }) ==> (zip_entry_count_of(data@)
            matches Some(n) && index < n && (zip_entry_of(data@, index as int) matches Some(e)
            && !safe_entry_name(e.0))),
        (zip_entry_count_of(data@) matches Some(n) && (forall|i: int|
            0 <= i < n ==> (#[trigger] zip_entry_of(data@, i) matches Some(e) && safe_entry_name(
                e.0,
            )))) ==> r is Ok,
{
    let count = match zip_entry_count(data) {
        Some(n) => n,
        None => {
            return Err(ArchiveError::NotAnArchive);
        },
    };
    let mut actions: Vec<EntryAction> = Vec::new();
    let mut i: usize = 0;
    while i < count
        invariant
            zip_entry_count_of(data@) == Some(count as nat),
            i <= count,
            actions@.len() == i,
            forall|j: int|
                0 <= j < i ==> action_for_entry(
                    #[trigger] actions@[j],
                    zip_entry_of(data@, j),
                    dest_dir@,
                ),
        decreases count - i,
    {
        let entry = match zip_entry(data, i) {
            Some(e) => e,
            None => {
                return Err(ArchiveError::EntryUnreadable { index: i });
            },
        };
        let (name, contents) = entry;
        if !entry_name_safe(name.as_str()) {
            return Err(ArchiveError::UnsafeEntryName { index: i });
        }
        let rel = trimmed(name.as_str());
        let mut path = dest_dir.to_owned();
        path.append("\\");
        path.append(rel.as_str());
        let n = name.as_str().unicode_len();
        let last = name.as_str().get_char(n - 1);
        if last == '/' || last == '\\' {
            actions.push(EntryAction::MakeDir { path });
        } else {
            actions.push(EntryAction::WriteFile { path, contents });
        }
        i += 1;
    }
    Ok(actions)
}

proof fn lemma_trimmed_is_prefix(s: Seq<char>)
    ensures
        trimmed_name(s).is_prefix_of(s),
    decreases s.len(),
{
    if s.len() > 0 && is_sep(s.last()) {
        lemma_trimmed_is_prefix(s.drop_last());
        assert(s.drop_last() =~= s.subrange(0, s.len() - 1));
        lemma_prefix_trans(trimmed_name(s), s.drop_last(), s);
    } else {
        lemma_prefix_refl(s);
    }
}

proof fn lemma_trimmed_no_dotdot(s: Seq<char>)
    requires
        !has_dotdot_segment(s),
    ensures
        !has_dotdot_segment(trimmed_name(s)),
    decreases s.len(),
{
    if s.len() > 0 && is_sep(s.last()) {
        assert(!has_dotdot_segment(s.drop_last())) by {
            if has_dotdot_segment(s.drop_last()) {
                let i = choose|i: int| dotdot_at(s.drop_last(), i);
                assert(dotdot_at(s, i));
            }
        }
        lemma_trimmed_no_dotdot(s.drop_last());
    }
}

/// No planned destination escapes the root: each planned path is the
/// destination root, one separator, and a relative part that opens with no
/// separator, names no drive, and never steps to a parent directory.
pub proof fn lemma_planned_path_stays_under(
    a: EntryAction,
    entry: Option<(Seq<char>, Seq<u8>)>,
    dest: Seq<char>,
)
    requires
        action_for_entry(a, entry, dest),
    ensures
        ({
            let path = match a {
                EntryAction::MakeDir { path } => path@,
                EntryAction::WriteFile { path, .. } => path@,
            };
            let rel = trimmed_name(entry.unwrap().0);
            path == dest + "\\"@ + rel && !has_dotdot_segment(rel) && (rel.len() == 0 || !is_sep(
                rel[0],
            )) && !rel.contains(':')
        }),
{
    let name = entry.unwrap().0;
    let rel = trimmed_name(name);
    lemma_trimmed_is_prefix(name);
    lemma_trimmed_no_dotdot(name);
    assert(!rel.contains(':')) by {
        if rel.contains(':') {
            let i = choose|i: int| 0 <= i < rel.len() && rel[i] == ':';
            assert(rel =~= name.subrange(0, rel.len() as int));
            assert(name[i] == ':');
        }
    }
    if rel.len() > 0 {
        assert(rel =~= name.subrange(0, rel.len() as int));
        assert(rel[0] == name[0]);
    }
}

} // verus!
