use vstd::prelude::*;
use vstd::string::*;

verus! {

/// A path is absolute when it starts at the root.
pub open spec fn is_absolute_spec(p: Seq<char>) -> bool {
    p.len() > 0 && p[0] == '/'
}

/// `rel` joined onto `base`: an absolute `rel` replaces `base`, otherwise one
/// separator stands between the two.
pub open spec fn join_spec(base: Seq<char>, rel: Seq<char>) -> Seq<char> {
    if is_absolute_spec(rel) || base.len() == 0 {
        rel
    } else if base.last() == '/' {
        base + rel
    } else {
        base + seq!['/'] + rel
    }
}

/// `path` lies inside `dir`: `dir`, without its trailing separators, is a
/// prefix of `path` that ends on a component boundary. Repeated separators
/// and `.` components inside either path are compared as written.
pub open spec fn is_under_spec(path: Seq<char>, dir: Seq<char>) -> bool {
    let d = trim_end_slashes(dir);
    d.len() <= path.len() && path.subrange(0, d.len() as int) == d && (path.len() == d.len()
        || path[d.len() as int] == '/')
}

/// `p` without its trailing separators.
pub open spec fn trim_end_slashes(p: Seq<char>) -> Seq<char>
    decreases p.len(),
{
    if p.len() > 0 && p.last() == '/' {
        trim_end_slashes(p.drop_last())
    } else {
        p
    }
}

/// `p` without its trailing separators and trailing `.` components.
pub open spec fn trim_tail(p: Seq<char>) -> Seq<char>
    decreases p.len(),
{
    if p.len() > 0 && (p.last() == '/' || (p.len() >= 2 && p.last() == '.' && p[p.len() - 2]
        == '/')) {
        trim_tail(p.drop_last())
    } else {
        p
    }
}

/// The text after the last separator of `p`.
pub open spec fn last_segment(p: Seq<char>) -> Seq<char>
    decreases p.len(),
{
    if p.len() == 0 || p.last() == '/' {
        Seq::empty()
    } else {
        last_segment(p.drop_last()).push(p.last())
    }
}

/// The last component of `p`, trailing `.` components skipped, unless it is
/// empty, `.` or `..`.
pub open spec fn file_name_spec(p: Seq<char>) -> Option<Seq<char>> {
    let s = last_segment(trim_tail(p));
    if s.len() == 0 || s == seq!['.'] || s == seq!['.', '.'] {
        None
    } else {
        Some(s)
    }
}

pub fn is_absolute(p: &str) -> (r: bool)
    ensures
        r == is_absolute_spec(p@),
{
    let n = p.unicode_len();
    n > 0 && p.get_char(0) == '/'
}

pub fn join_path(base: &str, rel: &str) -> (r: String)
    ensures
        r@ == join_spec(base@, rel@),
{
    let n = base.unicode_len();
    if is_absolute(rel) || n == 0 {
        String::from_str(rel)
    } else if base.get_char(n - 1) == '/' {
        let mut r = String::from_str(base);
        r.append(rel);
        r
    } else {
        let mut r = String::from_str(base);
        r.append("/");
        r.append(rel);
        proof {
            reveal_strlit("/");
        }
        r
    }
}

/// Whether `path` lies inside `dir`.
pub fn is_under(path: &str, dir: &str) -> (r: bool)
    ensures
        r == is_under_spec(path@, dir@),
{
    let n = path.unicode_len();
    let mut d = dir.unicode_len();
    while d > 0 && dir.get_char(d - 1) == '/'
        invariant
            d <= dir@.len(),
            forall|t: int| d <= t < dir@.len() ==> dir@[t] == '/',
        decreases d,
    {
        d = d - 1;
    }
    let ghost dv = dir@.subrange(0, d as int);
    proof {
        lemma_trim_prefix(dir@, d as int);
        assert(dv.len() > 0 ==> dv.last() == dir@[d - 1]);
        assert(trim_end_slashes(dv) == dv);
    }
    if d > n {
        return false;
    }
    let mut i: usize = 0;
    while i < d
        invariant
            n == path@.len(),
            d <= dir@.len(),
            d <= n,
            i <= d,
            dv == dir@.subrange(0, d as int),
            trim_end_slashes(dir@) == dv,
            forall|t: int| 0 <= t < i ==> path@[t] == dir@[t],
        decreases d - i,
    {
        if path.get_char(i) != dir.get_char(i) {
            assert(path@.subrange(0, d as int)[i as int] != dv[i as int]);
            return false;
        }
        i = i + 1;
    }
    assert(path@.subrange(0, d as int) =~= dv);
    n == d || path.get_char(d) == '/'
}

/// Why a path cannot be placed inside the configuration directory.
#[derive(Debug, Clone, Copy, PartialEq, Eq, Structural)]
pub enum PathError {
    /// The path names no file: it is the root, or ends in `..`.
    InvalidFileName,
}

/// Where `writeConfigFile` puts `path`: an absolute path inside `dir` stays
/// as it is, another absolute path keeps only its file name under `dir`, and
/// a relative path is joined onto `dir` as it stands (`..` is not collapsed).
pub open spec fn confined_path_spec(dir: Seq<char>, path: Seq<char>) -> Result<
    Seq<char>,
    PathError,
> {
    if is_absolute_spec(path) {
        if is_under_spec(path, dir) {
            Ok(path)
        } else {
            match file_name_spec(path) {
                Some(name) => Ok(join_spec(dir, name)),
                None => Err(PathError::InvalidFileName),
            }
        }
    } else {
        Ok(join_spec(dir, path))
    }
}

proof fn lemma_trim_prefix(p: Seq<char>, e: int)
    requires
        0 <= e <= p.len(),
        forall|t: int| e <= t < p.len() ==> p[t] == '/',
    ensures
        trim_end_slashes(p) == trim_end_slashes(p.subrange(0, e)),
    decreases p.len() - e,
{
    if e < p.len() {
        assert(p.drop_last() =~= p.subrange(0, p.len() - 1));
        lemma_trim_prefix(p.drop_last(), e);
        assert(p.drop_last().subrange(0, e) =~= p.subrange(0, e));
    } else {
        assert(p.subrange(0, e) =~= p);
    }
}

proof fn lemma_segment_split(q: Seq<char>, i: int)
    requires
        0 <= i <= q.len(),
        forall|t: int| i <= t < q.len() ==> q[t] != '/',
    ensures
        last_segment(q) == last_segment(q.subrange(0, i)) + q.subrange(i, q.len() as int),
    decreases q.len() - i,
{
    if i < q.len() {
        let r = q.drop_last();
        lemma_segment_split(r, i);
        assert(r.subrange(0, i) =~= q.subrange(0, i));
        assert(r.subrange(i, r.len() as int).push(q.last()) =~= q.subrange(i, q.len() as int));
    } else {
        assert(q.subrange(i, q.len() as int) =~= Seq::<char>::empty());
        assert(q.subrange(0, i) =~= q);
    }
}

/// The last component of `p`, as `file_name_spec` describes it.
pub fn file_name(p: &str) -> (r: Option<String>)
    ensures
        r.is_some() == file_name_spec(p@).is_some(),
        r matches Some(s) ==> file_name_spec(p@) == Some(s@),
{
    let n = p.unicode_len();
    let mut e: usize = n;
    assert(p@.subrange(0, n as int) =~= p@);
    while e > 0 && (p.get_char(e - 1) == '/' || (e >= 2 && p.get_char(e - 1) == '.' && p.get_char(
        e - 2,
    ) == '/'))
        invariant
            e <= n == p@.len(),
            trim_tail(p@) == trim_tail(p@.subrange(0, e as int)),
        decreases e,
    {
        proof {
            let q = p@.subrange(0, e as int);
            assert(q.drop_last() =~= p@.subrange(0, e - 1));
            assert(q.last() == p@[e - 1]);
            if e >= 2 {
                assert(q[q.len() - 2] == p@[e - 2]);
            }
        }
        e = e - 1;
    }
    proof {
        let q = p@.subrange(0, e as int);
        assert(q.len() > 0 ==> q.last() == p@[e - 1]);
        assert(q.len() >= 2 ==> q[q.len() - 2] == p@[e - 2]);
        assert(trim_tail(q) == q);
    }
    let mut i: usize = e;
    while i > 0 && p.get_char(i - 1) != '/'
        invariant
            i <= e <= n == p@.len(),
            forall|t: int| i <= t < e ==> p@[t] != '/',
        decreases i,
    {
        i = i - 1;
    }
    let seg = p.substring_char(i, e);
    proof {
        let q = p@.subrange(0, e as int);
        lemma_segment_split(q, i as int);
        let h = q.subrange(0, i as int);
        assert(h.len() > 0 ==> h.last() == p@[i - 1]);
        assert(last_segment(h) =~= Seq::<char>::empty());
        assert(q.subrange(i as int, q.len() as int) =~= seg@);
        assert(last_segment(q) =~= seg@);
    }
    let len = e - i;
    if len == 0 {
        return None;
    }
    if len == 1 && seg.get_char(0) == '.' {
        assert(seg@ =~= seq!['.']);
        return None;
    }
    if len == 2 && seg.get_char(0) == '.' && seg.get_char(1) == '.' {
        assert(seg@ =~= seq!['.', '.']);
        return None;
    }
    proof {
        if seg@ == seq!['.'] {
            assert(seg@[0] == '.');
        }
        if seg@ == seq!['.', '.'] {
            assert(seg@[0] == '.' && seg@[1] == '.');
        }
    }
    Some(String::from_str(seg))
}

/// Confines `path` to the configuration directory `dir`.
pub fn confine_to_dir(dir: &str, path: &str) -> (r: Result<String, PathError>)
    ensures
        match (r, confined_path_spec(dir@, path@)) {
            (Ok(s), Ok(t)) => s@ == t,
            (Err(e), Err(f)) => e == f,
            _ => false,
        },
{
    if is_absolute(path) {
        if is_under(path, dir) {
            Ok(String::from_str(path))
        } else {
            match file_name(path) {
                Some(name) => Ok(join_path(dir, name.as_str())),
                None => Err(PathError::InvalidFileName),
            }
        }
    } else {
        Ok(join_path(dir, path))
    }
}

} // verus!
