use vstd::prelude::*;
use vstd::string::*;

verus! {

/// True when `c` occurs nowhere in `s`.
pub open spec fn char_free(s: Seq<char>, c: char) -> bool {
    forall|i: int| 0 <= i < s.len() ==> s[i] != c
}

/// `needle` stands at position `i` of `hay`.
pub open spec fn occurs_at(hay: Seq<char>, needle: Seq<char>, i: int) -> bool {
    0 <= i && i + needle.len() <= hay.len() && hay.subrange(i, i + needle.len()) == needle
}

/// `needle` occurs as a contiguous run somewhere inside `hay`.
pub open spec fn contains_seq(hay: Seq<char>, needle: Seq<char>) -> bool {
    exists|i: int| occurs_at(hay, needle, i)
}

/// `flag` stands in `hay` as a whole argument would: the run is either at
/// the very end of the string or followed by a space.
pub open spec fn flag_at(hay: Seq<char>, flag: Seq<char>, i: int) -> bool {
    occurs_at(hay, flag, i) && (i + flag.len() == hay.len() || hay[i + flag.len()] == ' ')
}

/// Some position of `hay` carries `flag` as a whole argument.
pub open spec fn has_flag(hay: Seq<char>, flag: Seq<char>) -> bool {
    exists|i: int| flag_at(hay, flag, i)
}

/// A flag occurrence is in particular a containment.
pub proof fn lemma_has_flag_contains(hay: Seq<char>, flag: Seq<char>)
    requires
        has_flag(hay, flag),
    ensures
        contains_seq(hay, flag),
{
    let i = choose|i: int| flag_at(hay, flag, i);
    assert(occurs_at(hay, flag, i));
}

/// In `a + b + c`, the middle part stands at position `a.len()`.
pub proof fn lemma_occurs_in_middle(a: Seq<char>, b: Seq<char>, c: Seq<char>)
    ensures
        occurs_at(a + b + c, b, a.len() as int),
{
    assert((a + b + c).subrange(a.len() as int, a.len() + b.len() as int) =~= b);
}

/// If `hay` carries the character `c` only at position `p`, and `needle`
/// carries it at offset `k`, then `needle` occurs at no two positions.
pub proof fn lemma_unique_occurrence(hay: Seq<char>, needle: Seq<char>, c: char, k: int, p: int)
    requires
        0 <= k < needle.len(),
        needle[k] == c,
        forall|j: int| 0 <= j < hay.len() && hay[j] == c ==> j == p,
    ensures
        forall|i1: int, i2: int|
            occurs_at(hay, needle, i1) && occurs_at(hay, needle, i2) ==> i1 == i2,
{
    assert forall|i1: int, i2: int|
        occurs_at(hay, needle, i1) && occurs_at(hay, needle, i2) implies i1 == i2 by {
        assert(hay.subrange(i1, i1 + needle.len())[k] == needle[k]);
        assert(hay[i1 + k] == c);
        assert(hay.subrange(i2, i2 + needle.len())[k] == needle[k]);
        assert(hay[i2 + k] == c);
    }
}

/// With `a` and `b` free of `c`, and `mid` carrying `c` only at `q`, the
/// concatenation carries `c` only at `a.len() + q`.
pub proof fn lemma_single_char_pos(a: Seq<char>, mid: Seq<char>, b: Seq<char>, c: char, q: int)
    requires
        char_free(a, c),
        char_free(b, c),
        0 <= q < mid.len(),
        forall|j: int| 0 <= j < mid.len() && mid[j] == c ==> j == q,
    ensures
        forall|j: int| 0 <= j < (a + mid + b).len() && (a + mid + b)[j] == c ==> j == a.len() + q,
{
    let hay = a + mid + b;
    assert forall|j: int| 0 <= j < hay.len() && hay[j] == c implies j == a.len() + q by {
        if j < a.len() {
            assert(hay[j] == a[j]);
        } else if j < a.len() + mid.len() {
            assert(hay[j] == mid[j - a.len()]);
        } else {
            assert(hay[j] == b[j - a.len() - mid.len()]);
        }
    }
}

/// Every sequence is a prefix of itself.
pub proof fn lemma_prefix_refl(a: Seq<char>)
    ensures
        a.is_prefix_of(a),
{
    assert(a =~= a.subrange(0, a.len() as int));
}

/// Being a prefix carries over to any further extension.
pub proof fn lemma_prefix_trans(a: Seq<char>, b: Seq<char>, c: Seq<char>)
    requires
        a.is_prefix_of(b),
        b.is_prefix_of(c),
    ensures
        a.is_prefix_of(c),
{
    assert(a =~= c.subrange(0, a.len() as int));
}

/// A needle holding a character that the hay lacks cannot occur in the hay.
pub proof fn lemma_no_char_no_contains(hay: Seq<char>, needle: Seq<char>, c: char, k: int)
    requires
        0 <= k < needle.len(),
        needle[k] == c,
        char_free(hay, c),
    ensures
        !contains_seq(hay, needle),
{
    assert forall|i: int| !occurs_at(hay, needle, i) by {
        if occurs_at(hay, needle, i) {
            assert(hay.subrange(i, i + needle.len())[k] == needle[k]);
            assert(hay[i + k] == c);
        }
    }
}

/// Character freedom carries over concatenation.
pub proof fn lemma_char_free_concat(a: Seq<char>, b: Seq<char>, c: char)
    requires
        char_free(a, c),
        char_free(b, c),
    ensures
        char_free(a + b, c),
{
    assert forall|i: int| 0 <= i < (a + b).len() implies (a + b)[i] != c by {
        if i < a.len() {
            assert((a + b)[i] == a[i]);
        } else {
            assert((a + b)[i] == b[i - a.len()]);
        }
    }
}

/// Whether `c` occurs in `s`.
pub fn str_contains_char(s: &str, c: char) -> (b: bool)
    ensures
        b == s@.contains(c),
{
    let n = s.unicode_len();
    let mut i: usize = 0;
    while i < n
        invariant
            n == s@.len(),
            i <= n,
            forall|j: int| 0 <= j < i ==> s@[j] != c,
        decreases n - i,
    {
        if s.get_char(i) == c {
            return true;
        }
        i += 1;
    }
    false
}

/// Character-for-character equality of two string slices.
pub fn str_eq(a: &str, b: &str) -> (r: bool)
    ensures
        r == (a@ == b@),
{
    let na = a.unicode_len();
    let nb = b.unicode_len();
    if na != nb {
        return false;
    }
    let mut i: usize = 0;
    while i < na
        invariant
            na == a@.len(),
            nb == b@.len(),
            na == nb,
            i <= na,
            forall|j: int| 0 <= j < i ==> a@[j] == b@[j],
        decreases na - i,
    {
        if a.get_char(i) != b.get_char(i) {
            return false;
        }
        i += 1;
    }
    proof {
        assert(a@ =~= b@);
    }
    true
}

/// Whether `p` is a prefix of `s`.
pub fn str_starts_with(s: &str, p: &str) -> (r: bool)
    ensures
        r == p@.is_prefix_of(s@),
{
    let np = p.unicode_len();
    let ns = s.unicode_len();
    if np > ns {
        return false;
    }
    let mut i: usize = 0;
    while i < np
        invariant
            np == p@.len(),
            ns == s@.len(),
            np <= ns,
            i <= np,
            forall|j: int| 0 <= j < i ==> p@[j] == s@[j],
        decreases np - i,
    {
        if p.get_char(i) != s.get_char(i) {
            proof {
                assert(s@.subrange(0, p@.len() as int)[i as int] == s@[i as int]);
            }
            return false;
        }
        i += 1;
    }
    proof {
        assert(p@ =~= s@.subrange(0, p@.len() as int));
    }
    true
}

/// Relies on `String::push`: appends exactly the one character at the end.
#[verifier::external_body]
pub(crate) fn push_char(s: &mut String, c: char)
    ensures
        final(s)@ == old(s)@.push(c),
{
    s.push(c);
}

/// The segments of `s` between occurrences of `sep`; splitting the empty
/// string gives one empty segment, as `str::split` does.
pub open spec fn split_char(s: Seq<char>, sep: char) -> Seq<Seq<char>>
    decreases s.len(),
{
    if s.len() == 0 {
        seq![Seq::<char>::empty()]
    } else {
        let init = split_char(s.drop_last(), sep);
        if s.last() == sep {
            init + seq![Seq::<char>::empty()]
        } else {
            init.update(init.len() - 1, init.last().push(s.last()))
        }
    }
}

/// A split always yields at least one segment.
pub proof fn lemma_split_char_len(s: Seq<char>, sep: char)
    ensures
        split_char(s, sep).len() >= 1,
    decreases s.len(),
{
    if s.len() > 0 {
        lemma_split_char_len(s.drop_last(), sep);
    }
}

/// Splits `s` at every occurrence of `sep`.
pub fn split_on_char(s: &str, sep: char) -> (parts: Vec<String>)
    ensures
        parts@.map_values(|p: String| p@) == split_char(s@, sep),
{
    let n = s.unicode_len();
    let mut parts: Vec<String> = Vec::new();
    let mut cur = String::new();
    let mut i: usize = 0;
    proof {
        assert(s@.subrange(0, 0) =~= Seq::<char>::empty());
        assert(parts@.map_values(|p: String| p@).push(cur@) =~= split_char(s@.subrange(0, 0), sep));
    }
    while i < n
        invariant
            n == s@.len(),
            i <= n,
            parts@.map_values(|p: String| p@).push(cur@) == split_char(s@.subrange(0, i as int), sep),
        decreases n - i,
    {
        let ghost prefix = s@.subrange(0, i as int);
        let ghost prefix1 = s@.subrange(0, i + 1);
        proof {
            assert(prefix1.drop_last() =~= prefix);
            assert(prefix1.last() == s@[i as int]);
            lemma_split_char_len(prefix, sep);
        }
        let c = s.get_char(i);
        if c == sep {
            let ghost old_parts = parts@;
            parts.push(cur);
            cur = String::new();
            proof {
                assert(parts@.map_values(|p: String| p@).push(cur@) =~= split_char(prefix, sep)
                    + seq![Seq::<char>::empty()]);
            }
        } else {
            let ghost old_cur = cur@;
            push_char(&mut cur, c);
            proof {
                let m = parts@.map_values(|p: String| p@);
                let before = m.push(old_cur);
                assert(m.push(cur@) =~= before.update(before.len() - 1, before.last().push(c)));
            }
        }
        i += 1;
    }
    parts.push(cur);
    proof {
        assert(s@.subrange(0, n as int) =~= s@);
    }
    parts
}

/// A path separator as the launcher's host spells them.
pub open spec fn is_sep(c: char) -> bool {
    c == '/' || c == '\\'
}

/// What stands after the last path separator: the file name. A path that
/// ends in a separator has an empty file name.
pub open spec fn file_name_of(p: Seq<char>) -> Seq<char>
    decreases p.len(),
{
    if p.len() == 0 {
        p
    } else if is_sep(p.last()) {
        Seq::empty()
    } else {
        file_name_of(p.drop_last()).push(p.last())
    }
}

/// Past the last separator, the file name is just the remaining suffix.
pub proof fn lemma_file_name_suffix(p: Seq<char>, k: int)
    requires
        0 <= k <= p.len(),
        k == 0 || is_sep(p[k - 1]),
        forall|j: int| k <= j < p.len() ==> !is_sep(p[j]),
    ensures
        file_name_of(p) == p.subrange(k, p.len() as int),
    decreases p.len(),
{
    if p.len() == 0 {
        assert(p.subrange(0, 0) =~= p);
    } else if k == p.len() {
        assert(is_sep(p.last()));
        assert(p.subrange(k, p.len() as int) =~= Seq::<char>::empty());
    } else {
        assert(!is_sep(p.last()));
        lemma_file_name_suffix(p.drop_last(), k);
        assert(p.subrange(k, p.len() as int) =~= p.drop_last().subrange(
            k,
            p.drop_last().len() as int,
        ).push(p.last()));
    }
}

/// The file-name part of `p`: everything after the last `/` or `\`.
pub fn file_name(p: &str) -> (r: String)
    ensures
        r@ == file_name_of(p@),
{
    let n = p.unicode_len();
    let mut start: usize = 0;
    let mut i: usize = 0;
    while i < n
        invariant
            n == p@.len(),
            i <= n,
            start <= i,
            start == 0 || is_sep(p@[start - 1]),
            forall|j: int| start <= j < i ==> !is_sep(p@[j]),
        decreases n - i,
    {
        let c = p.get_char(i);
        if c == '/' || c == '\\' {
            start = i + 1;
        }
        i += 1;
    }
    let r = p.substring_char(start, n);
    proof {
        lemma_file_name_suffix(p@, start as int);
    }
    r.to_owned()
}

} // verus!

