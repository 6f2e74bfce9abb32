//! Install-path handling on plain strings: deriving a filename from a URL,
//! joining a directory with a filename, and appending a possibly-rooted
//! relative path.

use vstd::prelude::*;

verus! {

/// `s` ends with `suffix`.
pub open spec fn ends_with(s: Seq<char>, suffix: Seq<char>) -> bool {
    s.len() >= suffix.len() && s.subrange(s.len() - suffix.len(), s.len() as int) == suffix
}

/// Index of the last slash strictly before `end`, or `-1` if none.
pub open spec fn last_slash_before(s: Seq<char>, end: int) -> int
    decreases end,
{
    if end <= 0 {
        -1
    } else if s[end - 1] == '/' {
        end - 1
    } else {
        last_slash_before(s, end - 1)
    }
}

/// What a filename derived from a URL is: the part after the last slash,
/// provided the URL ends with the wanted suffix, holds a slash, and does not
/// end with it.
pub open spec fn spec_filename_from_url(url: Seq<char>, suffix: Seq<char>) -> Option<Seq<char>> {
    if !ends_with(url, suffix) {
        None
    } else {
        let i = last_slash_before(url, url.len() as int);
        if i < 0 {
            None
        } else if i + 1 >= url.len() {
            None
        } else {
            Some(url.subrange(i + 1, url.len() as int))
        }
    }
}

pub proof fn lemma_last_slash_is(s: Seq<char>, end: int, k: int)
    requires
        -1 <= k < end,
        forall|j: int| k < j < end ==> s[j] != '/',
        k >= 0 ==> s[k] == '/',
    ensures
        last_slash_before(s, end) == k,
    decreases end - k,
{
    if k < end - 1 {
        lemma_last_slash_is(s, end - 1, k);
    }
}

/// `s` ends with `suffix`, checked character by character.
pub fn str_ends_with(s: &str, suffix: &str) -> (r: bool)
    ensures
        r == ends_with(s@, suffix@),
{
    let n = s.unicode_len();
    let k = suffix.unicode_len();
    if n < k {
        return false;
    }
    let mut i: usize = 0;
    while i < k
        invariant
            i <= k <= n,
            n == s@.len(),
            k == suffix@.len(),
            forall|j: int| 0 <= j < i ==> s@[s@.len() - suffix@.len() + j] == suffix@[j],
        decreases k - i,
    {
        if s.get_char(n - k + i) != suffix.get_char(i) {
            assert(!ends_with(s@, suffix@)) by {
                if ends_with(s@, suffix@) {
                    assert(s@.subrange(s@.len() - suffix@.len(), s@.len() as int)[i as int]
                        == suffix@[i as int]);
                }
            }
            return false;
        }
        i = i + 1;
    }
    proof {
        assert(s@.subrange(s@.len() - suffix@.len(), s@.len() as int) =~= suffix@);
    }
    true
}

/// The filename a URL points at: the part after the last slash, if the URL
/// ends with `suffix`, holds a slash, and does not end directly with one.
pub fn find_filename_from_url(url: &str, suffix: &str) -> (r: Option<String>)
    ensures
        match r {
            Some(f) => spec_filename_from_url(url@, suffix@) == Some(f@),
            None => spec_filename_from_url(url@, suffix@) is None,
        },
{
    if !str_ends_with(url, suffix) {
        return None;
    }
    let n = url.unicode_len();
    let mut e: usize = n;
    while e > 0
        invariant
            e <= n,
            n == url@.len(),
            ends_with(url@, suffix@),
            forall|j: int| e <= j < n ==> url@[j] != '/',
        decreases e,
    {
        if url.get_char(e - 1) == '/' {
            proof {
                lemma_last_slash_is(url@, n as int, e - 1);
            }
            if e >= n {
                return None;
            }
            proof {
                assert(last_slash_before(url@, n as int) == e - 1);
                assert(e - 1 + 1 == e as int);
                assert(spec_filename_from_url(url@, suffix@) == Some(
                    url@.subrange(e as int, n as int),
                ));
            }
            let f = url.substring_char(e, n);
            return Some(f.to_owned());
        }
        e = e - 1;
    }
    proof {
        lemma_last_slash_is(url@, n as int, -1);
    }
    None
}

/// Joining a directory and a filename: an absolute filename stands alone; an
/// empty directory contributes nothing; otherwise the two are joined with a
/// slash unless the directory already ends with one.
pub open spec fn spec_join_path(dir: Seq<char>, file: Seq<char>) -> Seq<char> {
    if file.len() > 0 && file[0] == '/' {
        file
    } else if dir.len() == 0 {
        file
    } else if dir[dir.len() - 1] == '/' {
        dir + file
    } else {
        dir + seq!['/'] + file
    }
}

/// Joins a directory and a filename into one path.
pub fn join_path(dir: &str, file: &str) -> (r: String)
    ensures
        r@ == spec_join_path(dir@, file@),
{
    proof {
        reveal_strlit("/");
        assert("/"@ =~= seq!['/']);
    }
    let fln = file.unicode_len();
    if fln > 0 && file.get_char(0) == '/' {
        return file.to_owned();
    }
    let dn = dir.unicode_len();
    if dn == 0 {
        return file.to_owned();
    }
    if dir.get_char(dn - 1) == '/' {
        let s = dir.to_owned();
        s.concat(file)
    } else {
        let s = dir.to_owned();
        let s = s.concat("/");
        let r = s.concat(file);
        proof {
            assert(r@ =~= dir@ + seq!['/'] + file@);
        }
        r
    }
}

/// Appending a path to a base directory: a leading root is stripped off the
/// appended path first, so it always lands inside the base.
pub open spec fn spec_append_relative(base: Seq<char>, path: Seq<char>) -> Seq<char> {
    if path.len() > 0 && path[0] == '/' {
        spec_join_path(base, path.skip(1))
    } else {
        spec_join_path(base, path)
    }
}

/// Appends `path` to the directory in `target`, stripping `path`'s root
/// component if it has one. Never fails: a rooted path is made relative.
pub fn append_relative_path(target: &mut String, path: &str) -> (r: Result<(), ()>)
    ensures
        r is Ok,
        final(target)@ == spec_append_relative(old(target)@, path@),
{
    let n = path.unicode_len();
    let joined = if n > 0 && path.get_char(0) == '/' {
        let rel = path.substring_char(1, n);
        join_path(target.as_str(), rel)
    } else {
        join_path(target.as_str(), path)
    };
    *target = joined;
    Ok(())
}

/// The directory part of a path: everything before the last slash, the lone
/// root slash when that slash leads, nothing when the path holds no slash.
pub open spec fn spec_parent_dir(p: Seq<char>) -> Seq<char> {
    let i = last_slash_before(p, p.len() as int);
    if i < 0 {
        Seq::empty()
    } else if i == 0 {
        p.subrange(0, 1)
    } else {
        p.subrange(0, i)
    }
}

/// The directory part of a path.
fn parent_dir(path: &str) -> (r: String)
    ensures
        r@ == spec_parent_dir(path@),
{
    let n = path.unicode_len();
    let mut e: usize = n;
    while e > 0
        invariant
            e <= n,
            n == path@.len(),
            forall|j: int| e <= j < n ==> path@[j] != '/',
        decreases e,
    {
        if path.get_char(e - 1) == '/' {
            proof {
                lemma_last_slash_is(path@, n as int, e - 1);
            }
            if e - 1 == 0 {
                return path.substring_char(0, 1).to_owned();
            }
            return path.substring_char(0, e - 1).to_owned();
        }
        e = e - 1;
    }
    proof {
        lemma_last_slash_is(path@, n as int, -1);
    }
    String::new()
}

/// The three paths whose presence marks a valid application directory: the
/// executable itself, the library directory beside it, and the engine
/// assembly under the data directory. Whether they exist on disk is the
/// caller's business.
pub fn validation_probe_paths(exe_path: &str) -> (r: Vec<String>)
    ensures
        r@.len() == 3,
        r@[0]@ == exe_path@,
        r@[1]@ == spec_join_path(spec_parent_dir(exe_path@), "Libraries"@),
        r@[2]@ == spec_join_path(spec_parent_dir(exe_path@), "Neos_Data/Managed/FrooxEngine.dll"@),
{
    let dir = parent_dir(exe_path);
    let mut v: Vec<String> = Vec::new();
    v.push(exe_path.to_owned());
    v.push(join_path(dir.as_str(), "Libraries"));
    v.push(join_path(dir.as_str(), "Neos_Data/Managed/FrooxEngine.dll"));
    v
}

} // verus!
