//! Paths as the library sees them: `/`-separated text.
//!
//! The library never touches the file system; it receives paths as text
//! (the caller resolves and canonicalizes them) and compares them by their
//! segments, where empty segments and `.` segments carry no meaning.
use vstd::prelude::*;

use crate::text::{
    chars_of, eq_str, extend_chars, index_of, lemma_index_of_first, lemma_index_of_none,
    join, join_chars, lemma_views_push, owned, starts_with, starts_with_chars, string_of, views,
    chars_eq,
};

verus! {

/// `Path::join` on a `/`-separated path: an absolute `name` replaces `dir`,
/// otherwise a separator is put between them unless `dir` is empty or already
/// ends with one.
pub open spec fn path_join(dir: Seq<char>, name: Seq<char>) -> Seq<char> {
    if name.len() > 0 && name[0] == '/' {
        name
    } else if dir.len() == 0 || dir.last() == '/' {
        dir + name
    } else {
        dir + seq!['/'] + name
    }
}

/// A path that starts at the file system root.
pub open spec fn is_absolute(p: Seq<char>) -> bool {
    p.len() > 0 && p[0] == '/'
}

/// A segment that names something (not empty and not `.`).
pub open spec fn keep_segment(x: Seq<char>) -> Seq<Seq<char>> {
    if x.len() == 0 || x == "."@ {
        Seq::empty()
    } else {
        seq![x]
    }
}

/// The named segments of a path, in order.
pub open spec fn segments(p: Seq<char>) -> Seq<Seq<char>>
    decreases p.len(),
{
    if p.len() == 0 {
        Seq::empty()
    } else {
        let i = index_of(p, '/');
        if i < 0 || i >= p.len() {
            keep_segment(p)
        } else {
            keep_segment(p.take(i)) + segments(p.skip(i + 1))
        }
    }
}

/// `Path::file_name`: the last segment, unless it is `..` or there is none.
pub open spec fn file_name(p: Seq<char>) -> Option<Seq<char>> {
    let s = segments(p);
    if s.len() > 0 && s.last() != ".."@ {
        Some(s.last())
    } else {
        None
    }
}

/// `Path::strip_prefix(base)`, as text: when the named segments of `base`
/// begin those of `path` (and both are absolute or both relative), the
/// remaining segments joined by `/`.
pub open spec fn stripped_rel(path: Seq<char>, base: Seq<char>) -> Option<Seq<char>> {
    let ps = segments(path);
    let bs = segments(base);
    if is_absolute(path) == is_absolute(base) && bs.len() <= ps.len() && ps.take(bs.len() as int)
        == bs {
        Some(join(ps.skip(bs.len() as int), seq!['/']))
    } else {
        None
    }
}

/// `path.display()` with the Windows verbatim prefixes `\\?\UNC\` and `\\?\`
/// removed (the former becomes `\\`).
pub open spec fn display_path(p: Seq<char>) -> Seq<char> {
    if starts_with(p, "\\\\?\\UNC\\"@) {
        "\\\\"@ + p.skip("\\\\?\\UNC\\"@.len() as int)
    } else if starts_with(p, "\\\\?\\"@) {
        p.skip("\\\\?\\"@.len() as int)
    } else {
        p
    }
}

/// Joins a directory and a file name.
pub fn join_path(dir: &str, name: &str) -> (r: String)
    ensures
        r@ == path_join(dir@, name@),
{
    let d = chars_of(dir);
    let n = chars_of(name);
    if n.len() > 0 && n[0] == '/' {
        return owned(name);
    }
    let mut out = d.clone();
    assert(out@ == d@);
    if d.len() > 0 && d[d.len() - 1] != '/' {
        out.push('/');
    }
    extend_chars(&mut out, &n);
    string_of(&out)
}

/// Whether a path is absolute.
pub fn is_absolute_path(p: &str) -> (r: bool)
    ensures
        r == is_absolute(p@),
{
    let c = chars_of(p);
    c.len() > 0 && c[0] == '/'
}

proof fn lemma_keep_segment_views(v: Seq<Vec<char>>, x: Vec<char>, keep: bool)
    requires
        keep == !(x@.len() == 0 || x@ == "."@),
    ensures
        views(if keep {
            v.push(x)
        } else {
            v
        }) == views(v) + keep_segment(x@),
{
    if keep {
        lemma_views_push(v, x);
        assert(views(v).push(x@) =~= views(v) + seq![x@]);
    } else {
        assert(views(v) + Seq::<Seq<char>>::empty() =~= views(v));
    }
}

/// The named segments of a path.
pub fn split_segments(p: &[char]) -> (r: Vec<Vec<char>>)
    ensures
        views(r@) == segments(p@),
{
    let mut r: Vec<Vec<char>> = Vec::new();
    let mut start: usize = 0;
    let mut j: usize = 0;
    assert(p@.skip(0) =~= p@);
    assert(views(r@) + segments(p@) =~= segments(p@));
    while j < p.len()
        invariant
            start <= j <= p.len(),
            segments(p@) == views(r@) + segments(p@.skip(start as int)),
            forall|k: int| start <= k < j ==> p@[k] != '/',
        decreases p.len() - j,
    {
        if p[j] == '/' {
            let ghost rest = p@.skip(start as int);
            proof {
                lemma_index_of_first(rest, '/', j - start);
                assert(rest.skip(j - start + 1) =~= p@.skip(j + 1));
                assert(rest.take(j - start) =~= p@.subrange(start as int, j as int));
            }
            let mut seg: Vec<char> = Vec::new();
            extend_chars(&mut seg, &p[start..j]);
            let keep = !(seg.len() == 0 || eq_str(&seg, "."));
            let ghost before = r@;
            proof {
                lemma_keep_segment_views(before, seg, keep);
            }
            if keep {
                r.push(seg);
            }
            start = j + 1;
            assert(views(r@) + segments(p@.skip(start as int)) =~= views(before) + segments(rest));
        }
        j += 1;
    }
    let ghost rest = p@.skip(start as int);
    if start < p.len() {
        proof {
            lemma_index_of_none(rest, '/');
        }
        let mut seg: Vec<char> = Vec::new();
        extend_chars(&mut seg, &p[start..p.len()]);
        assert(seg@ =~= rest);
        let keep = !(seg.len() == 0 || eq_str(&seg, "."));
        let ghost before = r@;
        proof {
            lemma_keep_segment_views(before, seg, keep);
        }
        if keep {
            r.push(seg);
        }
    } else {
        assert(rest =~= Seq::<char>::empty());
        assert(views(r@) + Seq::<Seq<char>>::empty() =~= views(r@));
    }
    r
}

/// `Path::file_name`, as text.
pub fn path_file_name(p: &str) -> (r: Option<String>)
    ensures
        r matches Some(x) ==> file_name(p@) == Some(x@),
        r is None ==> file_name(p@) is None,
{
    let c = chars_of(p);
    let segs = split_segments(&c);
    if segs.len() == 0 {
        return None;
    }
    let last = &segs[segs.len() - 1];
    assert(views(segs@).last() == last@);
    if eq_str(last, "..") {
        None
    } else {
        Some(string_of(last))
    }
}

/// `Path::strip_prefix(base)`, as text (see `stripped_rel`).
pub fn strip_path_prefix(path: &str, base: &str) -> (r: Option<String>)
    ensures
        match stripped_rel(path@, base@) {
            Some(x) => r matches Some(s) && s@ == x,
            None => r is None,
        },
{
    if is_absolute_path(path) != is_absolute_path(base) {
        return None;
    }
    let ps = split_segments(&chars_of(path));
    let bs = split_segments(&chars_of(base));
    if bs.len() > ps.len() {
        assert(views(bs@).len() > views(ps@).len());
        return None;
    }
    let mut i: usize = 0;
    while i < bs.len()
        invariant
            i <= bs.len() <= ps.len(),
            views(ps@) == segments(path@),
            views(bs@) == segments(base@),
            is_absolute(path@) == is_absolute(base@),
            forall|k: int| 0 <= k < i ==> ps@[k]@ == bs@[k]@,
        decreases bs.len() - i,
    {
        if !chars_eq(&ps[i], &bs[i]) {
            assert(views(ps@).take(bs.len() as int)[i as int] == ps@[i as int]@);
            assert(views(bs@)[i as int] == bs@[i as int]@);
            assert(views(ps@).take(bs.len() as int) != views(bs@));
            return None;
        }
        i += 1;
    }
    assert(views(ps@).take(bs.len() as int) =~= views(bs@));
    let mut rest: Vec<Vec<char>> = Vec::new();
    let mut k: usize = bs.len();
    while k < ps.len()
        invariant
            bs.len() <= k <= ps.len(),
            views(rest@) == views(ps@).subrange(bs.len() as int, k as int),
        decreases ps.len() - k,
    {
        let ghost before = rest@;
        rest.push(ps[k].clone());
        proof {
            lemma_views_push(before, ps@[k as int]);
        }
        assert(views(ps@).subrange(bs.len() as int, k + 1) =~= views(ps@).subrange(
            bs.len() as int,
            k as int,
        ).push(ps@[k as int]@));
        k += 1;
    }
    assert(views(ps@).subrange(bs.len() as int, ps.len() as int) =~= views(ps@).skip(
        bs.len() as int,
    ));
    let slash: Vec<char> = vec!['/'];
    assert(slash@ == seq!['/']);
    Some(string_of(&join_chars(&rest, &slash)))
}

/// `display_path` as text.
pub fn display_path_text(p: &str) -> (r: String)
    ensures
        r@ == display_path(p@),
{
    let c = chars_of(p);
    let unc = chars_of("\\\\?\\UNC\\");
    let verbatim = chars_of("\\\\?\\");
    if starts_with_chars(&c, &unc) {
        let mut out = chars_of("\\\\");
        extend_chars(&mut out, &c[unc.len()..c.len()]);
        assert(c@.subrange(unc@.len() as int, c@.len() as int) =~= c@.skip(unc@.len() as int));
        string_of(&out)
    } else if starts_with_chars(&c, &verbatim) {
        let mut out: Vec<char> = Vec::new();
        extend_chars(&mut out, &c[verbatim.len()..c.len()]);
        assert(c@.subrange(verbatim@.len() as int, c@.len() as int) =~= c@.skip(
            verbatim@.len() as int,
        ));
        string_of(&out)
    } else {
        owned(p)
    }
}

} // verus!
