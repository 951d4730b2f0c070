//! Files found under the repository root, as the scan sees them.
//!
//! Walking the file system is the caller's part; the library turns what the
//! walk reports into candidates, decides which directories to enter, and puts
//! the candidates in path order.
use vstd::prelude::*;

use crate::sort::{sort_by_key, Keyed};
use crate::text::{
    chars_of, contains, replace_char, replace_char_chars, string_of,
    str_eq, string_views,
};

verus! {

/// A file found by the walk.
#[derive(Debug, Clone)]
pub struct FileCandidate {
    pub abs_path: String,
    pub rel_path: String,
    pub size_bytes: u64,
    pub extension: Option<String>,
    pub file_name: String,
    pub hidden: bool,
}

impl Keyed for FileCandidate {
    open spec fn key(&self) -> Seq<char> {
        self.rel_path@
    }

    fn key_str(&self) -> (r: &str) {
        self.rel_path.as_str()
    }
}

/// `char::to_ascii_lowercase`.
pub open spec fn ascii_lower(c: char) -> char {
    if 'A' <= c <= 'Z' {
        ((c as u32) + 32) as char
    } else {
        c
    }
}

/// `str::to_ascii_lowercase`.
pub open spec fn ascii_lowercase(s: Seq<char>) -> Seq<char> {
    s.map_values(|c: char| ascii_lower(c))
}

/// A path is hidden when one of its `/`-separated parts starts with a dot.
pub open spec fn is_hidden_path(rel: Seq<char>) -> bool {
    exists|i: int| 0 <= i < rel.len() && #[trigger] rel[i] == '.' && (i == 0 || rel[i - 1] == '/')
}

/// The candidate the walk's report describes: the relative path with `\`
/// read as `/`, the extension in ASCII lower case, and hidden when a part of
/// the relative path starts with a dot.
pub open spec fn is_candidate_for(
    c: FileCandidate,
    abs_path: Seq<char>,
    raw_rel_path: Seq<char>,
    file_name: Seq<char>,
    raw_extension: Option<Seq<char>>,
    size_bytes: u64,
) -> bool {
    &&& c.abs_path@ == abs_path
    &&& c.rel_path@ == replace_char(raw_rel_path, '\\', seq!['/'])
    &&& c.size_bytes == size_bytes
    &&& c.file_name@ == file_name
    &&& match raw_extension {
        Some(e) => c.extension matches Some(x) && x@ == ascii_lowercase(e),
        None => c.extension is None,
    }
    &&& c.hidden == is_hidden_path(c.rel_path@)
}

/// `str::to_ascii_lowercase`.
pub fn to_ascii_lowercase(s: &str) -> (r: String)
    ensures
        r@ == ascii_lowercase(s@),
{
    let cs = chars_of(s);
    let mut out: Vec<char> = Vec::new();
    let mut i: usize = 0;
    while i < cs.len()
        invariant
            i <= cs.len(),
            out@ == ascii_lowercase(cs@.take(i as int)),
        decreases cs.len() - i,
    {
        let c = cs[i];
        let l = if 'A' <= c && c <= 'Z' {
            let b = (c as u8) + 32;
            b as char
        } else {
            c
        };
        assert(l == ascii_lower(c));
        out.push(l);
        i += 1;
        assert(ascii_lowercase(cs@.take(i as int)) =~= ascii_lowercase(cs@.take(i - 1)).push(
            ascii_lower(cs@[i - 1]),
        ));
    }
    assert(cs@.take(cs.len() as int) =~= cs@);
    string_of(&out)
}

/// Whether a relative path is hidden.
pub fn hidden_path(rel: &str) -> (r: bool)
    ensures
        r == is_hidden_path(rel@),
{
    let cs = chars_of(rel);
    let mut i: usize = 0;
    while i < cs.len()
        invariant
            i <= cs.len(),
            cs@ == rel@,
            forall|k: int| 0 <= k < i ==> !(#[trigger] cs@[k] == '.' && (k == 0 || cs@[k - 1] == '/')),
        decreases cs.len() - i,
    {
        if cs[i] == '.' && (i == 0 || cs[i - 1] == '/') {
            assert(rel@[i as int] == '.');
            return true;
        }
        i += 1;
    }
    false
}

/// Builds the candidate for a file the walk reported.
pub fn make_candidate(
    abs_path: String,
    raw_rel_path: &str,
    file_name: String,
    raw_extension: Option<&str>,
    size_bytes: u64,
) -> (r: FileCandidate)
    ensures
        is_candidate_for(
            r,
            abs_path@,
            raw_rel_path@,
            file_name@,
            match raw_extension {
                Some(e) => Some(e@),
                None => None,
            },
            size_bytes,
        ),
{
    let slash: Vec<char> = vec!['/'];
    assert(slash@ == seq!['/']);
    let rel = string_of(&replace_char_chars(&chars_of(raw_rel_path), '\\', &slash));
    let extension = match raw_extension {
        Some(e) => Some(to_ascii_lowercase(e)),
        None => None,
    };
    let hidden = hidden_path(rel.as_str());
    FileCandidate { abs_path, rel_path: rel, size_bytes, extension, file_name, hidden }
}

/// The walk enters a directory unless its name is one of the excluded
/// directories; entries that are not directories, or whose name is not text,
/// are always let through.
pub open spec fn descends(is_dir: bool, name: Option<Seq<char>>, excluded: Seq<Seq<char>>) -> bool {
    match name {
        Some(n) => !is_dir || !excluded.contains(n),
        None => true,
    }
}

pub fn should_descend(is_dir: bool, name: Option<&str>, excluded_dirs: &Vec<String>) -> (r: bool)
    ensures
        r == descends(
            is_dir,
            match name {
                Some(n) => Some(n@),
                None => None,
            },
            string_views(excluded_dirs@),
        ),
{
    if !is_dir {
        return true;
    }
    let n = match name {
        Some(n) => n,
        None => return true,
    };
    let mut i: usize = 0;
    while i < excluded_dirs.len()
        invariant
            i <= excluded_dirs.len(),
            is_dir,
            name == Some(n),
            forall|k: int| 0 <= k < i ==> excluded_dirs@[k]@ != n@,
        decreases excluded_dirs.len() - i,
    {
        if str_eq(excluded_dirs[i].as_str(), n) {
            assert(string_views(excluded_dirs@)[i as int] == n@);
            assert(string_views(excluded_dirs@).contains(n@));
            return false;
        }
        i += 1;
    }
    assert(!string_views(excluded_dirs@).contains(n@)) by {
        if string_views(excluded_dirs@).contains(n@) {
            let k = choose|k: int| 0 <= k < excluded_dirs@.len() && string_views(excluded_dirs@)[k] == n@;
            assert(excluded_dirs@[k]@ != n@);
        }
    }
    true
}

/// The candidates in order of their relative paths.
pub fn sort_candidates(candidates: Vec<FileCandidate>) -> (r: Vec<FileCandidate>)
    ensures
        r@ == crate::sort::sorted_by_key(candidates@),
{
    sort_by_key(candidates)
}

} // verus!
