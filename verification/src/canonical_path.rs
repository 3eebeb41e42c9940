//! Bringing resolved paths into one platform-consistent form, so that the
//! same file is always cached under the same key.

use vstd::prelude::*;
use vstd::string::*;

verus! {

/// A letter that can name a drive.
pub open spec fn is_drive_letter(c: char) -> bool {
    ('a' <= c && c <= 'z') || ('A' <= c && c <= 'Z')
}

/// The path starts with a verbatim disk prefix: `\\?\`, a drive letter and a
/// colon, followed by a backslash or nothing.
pub open spec fn has_verbatim_disk_prefix(path: Seq<char>) -> bool {
    &&& path.len() >= 6
    &&& path[0] == '\\'
    &&& path[1] == '\\'
    &&& path[2] == '?'
    &&& path[3] == '\\'
    &&& is_drive_letter(path[4])
    &&& path[5] == ':'
    &&& (path.len() == 6 || path[6] == '\\')
}

/// The path in drive-letter form: a verbatim disk prefix loses its `\\?\`,
/// every other path stays as it is.
pub open spec fn drive_letter_form(path: Seq<char>) -> Seq<char> {
    if has_verbatim_disk_prefix(path) {
        path.subrange(4, path.len() as int)
    } else {
        path
    }
}

/// Bringing a path into drive-letter form a second time changes nothing.
pub proof fn lemma_drive_letter_form_idempotent(path: Seq<char>)
    ensures
        drive_letter_form(drive_letter_form(path)) == drive_letter_form(path),
{
    if has_verbatim_disk_prefix(path) {
        let short = path.subrange(4, path.len() as int);
        assert(short[0] == path[4]);
        assert(!has_verbatim_disk_prefix(short));
    }
}

/// Whether `path` starts with a verbatim disk prefix.
pub fn starts_with_verbatim_disk(path: &str) -> (b: bool)
    ensures
        b == has_verbatim_disk_prefix(path@),
{
    let n: usize = path.unicode_len();
    if n < 6 {
        return false;
    }
    let letter: char = path.get_char(4);
    let is_letter: bool = ('a' <= letter && letter <= 'z') || ('A' <= letter && letter <= 'Z');
    path.get_char(0) == '\\' && path.get_char(1) == '\\' && path.get_char(2) == '?'
        && path.get_char(3) == '\\' && is_letter && path.get_char(5) == ':' && (n == 6
        || path.get_char(6) == '\\')
}

/// A character that parts the components of a path.
pub open spec fn is_separator(c: char) -> bool {
    c == '/' || c == '\\'
}

/// The position of the last separator in `path`, or -1 if it has none.
pub open spec fn last_separator(path: Seq<char>) -> int
    decreases path.len(),
{
    if path.len() == 0 {
        -1
    } else if is_separator(path.last()) {
        path.len() - 1
    } else {
        last_separator(path.drop_last())
    }
}

/// The directory that holds `path`: what stands before the last separator.
/// If that is the only separator it belongs to the directory, which is then
/// a root; a path without a separator is its own directory.
pub open spec fn directory_of(path: Seq<char>) -> Seq<char> {
    let last = last_separator(path);
    if last < 0 {
        path
    } else if last_separator(path.subrange(0, last)) < 0 {
        path.subrange(0, last + 1)
    } else {
        path.subrange(0, last)
    }
}

/// `path` is `root` or lies below it: it begins with `root`, and what
/// follows begins after a separator.
pub open spec fn covered_by(root: Seq<char>, path: Seq<char>) -> bool {
    &&& root.is_prefix_of(path)
    &&& (root.len() == path.len() || (root.len() > 0 && is_separator(root.last())) || is_separator(
        path[root.len() as int],
    ))
}

/// What the position of the last separator is: a separator with none after
/// it, or -1 where there is none at all.
pub proof fn lemma_last_separator(path: Seq<char>)
    ensures
        -1 <= last_separator(path) < path.len(),
        last_separator(path) >= 0 ==> is_separator(path[last_separator(path)]),
        forall|j: int| last_separator(path) < j < path.len() ==> !is_separator(#[trigger] path[j]),
    decreases path.len(),
{
    if path.len() > 0 && !is_separator(path.last()) {
        let shorter = path.drop_last();
        lemma_last_separator(shorter);
        assert forall|j: int| last_separator(path) < j < path.len() implies !is_separator(
            #[trigger] path[j],
        ) by {
            if j < shorter.len() {
                assert(shorter[j] == path[j]);
            }
        }
    }
}

/// A position is that of the last separator if it holds one and none comes
/// after it; there is none if no position holds one.
pub proof fn lemma_last_separator_is(path: Seq<char>, at: int)
    requires
        -1 <= at < path.len(),
        at >= 0 ==> is_separator(path[at]),
        forall|j: int| at < j < path.len() ==> !is_separator(#[trigger] path[j]),
    ensures
        last_separator(path) == at,
{
    lemma_last_separator(path);
    let l = last_separator(path);
    if l > at {
        assert(is_separator(path[l]));
    }
    if at > l {
        assert(!is_separator(path[at]));
    }
}

/// A directory covers the paths directly in it, and a path covers itself.
pub proof fn lemma_directory_covers(path: Seq<char>)
    ensures
        covered_by(directory_of(path), path),
        covered_by(path, path),
{
    lemma_last_separator(path);
    let last = last_separator(path);
    if last >= 0 {
        let dir = directory_of(path);
        if last_separator(path.subrange(0, last)) < 0 {
            assert(dir.last() == path[last]);
        } else {
            assert(dir.len() == last);
        }
    }
}

/// What is covered by a directory is covered by every directory that covers
/// that one.
pub proof fn lemma_covering_is_transitive(a: Seq<char>, b: Seq<char>, c: Seq<char>)
    requires
        covered_by(a, b),
        covered_by(b, c),
    ensures
        covered_by(a, c),
{
    assert(a.is_prefix_of(c)) by {
        assert(a =~= b.subrange(0, a.len() as int));
        assert(b =~= c.subrange(0, b.len() as int));
        assert(a =~= c.subrange(0, a.len() as int));
    }
    if a.len() < c.len() && !(a.len() > 0 && is_separator(a.last())) {
        if a.len() == b.len() {
            assert(a =~= b);
        } else {
            assert(b.subrange(0, b.len() as int)[a.len() as int] == c[a.len() as int]);
        }
    }
}

/// The position of the last separator among the first `end` characters of
/// `path`, if there is one.
fn find_last_separator(path: &str, end: usize) -> (r: Option<usize>)
    requires
        end <= path@.len(),
    ensures
        match r {
            Some(at) => at == last_separator(path@.subrange(0, end as int)),
            None => last_separator(path@.subrange(0, end as int)) == -1,
        },
{
    let ghost head = path@.subrange(0, end as int);
    let mut i: usize = end;
    while i > 0
        invariant
            i <= end,
            end <= path@.len(),
            head == path@.subrange(0, end as int),
            forall|j: int| i <= j < end ==> !is_separator(#[trigger] head[j]),
        decreases i,
    {
        i -= 1;
        let c: char = path.get_char(i);
        if c == '/' || c == '\\' {
            proof {
                assert(head[i as int] == c);
                lemma_last_separator_is(head, i as int);
            }
            return Some(i);
        }
    }
    proof {
        lemma_last_separator_is(head, -1);
    }
    None
}

/// The directory that holds `path`.
pub fn parent_directory(path: &str) -> (dir: String)
    ensures
        dir@ == directory_of(path@),
{
    let n: usize = path.unicode_len();
    assert(path@.subrange(0, n as int) =~= path@);
    match find_last_separator(path, n) {
        Some(last) => {
            proof {
                lemma_last_separator(path@);
            }
            match find_last_separator(path, last) {
                Some(_) => String::from_str(path.substring_char(0, last)),
                None => String::from_str(path.substring_char(0, last + 1)),
            }
        },
        None => String::from_str(path),
    }
}

/// Whether `path` is `root` or lies below it.
pub fn is_covered_by(root: &str, path: &str) -> (b: bool)
    ensures
        b == covered_by(root@, path@),
{
    let n: usize = root.unicode_len();
    let m: usize = path.unicode_len();
    if n > m {
        return false;
    }
    let mut i: usize = 0;
    while i < n
        invariant
            i <= n <= m,
            n == root@.len(),
            m == path@.len(),
            forall|j: int| 0 <= j < i ==> root@[j] == path@[j],
        decreases n - i,
    {
        if root.get_char(i) != path.get_char(i) {
            assert(!root@.is_prefix_of(path@)) by {
                if root@.is_prefix_of(path@) {
                    assert(root@ == path@.subrange(0, n as int));
                    assert(path@.subrange(0, n as int)[i as int] == path@[i as int]);
                }
            }
            return false;
        }
        i += 1;
    }
    assert(root@ =~= path@.subrange(0, n as int));
    if n == m {
        return true;
    }
    if n > 0 {
        let last: char = root.get_char(n - 1);
        if last == '/' || last == '\\' {
            return true;
        }
    }
    let next: char = path.get_char(n);
    next == '/' || next == '\\'
}

} // verus!
