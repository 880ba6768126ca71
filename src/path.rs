//! Mapping local file paths to remote paths under a site root.
//!
//! Paths are handled as strings made of segments separated by `/`. Empty
//! segments (a doubled or trailing separator) carry no meaning; `.` and `..`
//! are not interpreted, since the paths given here are canonical.
use vstd::prelude::*;

verus! {

/// Why a local path has no remote counterpart.
#[derive(Debug, Clone, Copy, PartialEq, Eq, Structural)]
pub enum PathError {
    /// The path does not lie in the subtree of the site root.
    NotUnderRoot,
}

/// The segments of `s` from position `i` on, where `cur` holds the part of
/// the segment read so far.
pub open spec fn segments_from(s: Seq<char>, i: int, cur: Seq<char>) -> Seq<Seq<char>>
    decreases s.len() - i,
{
    if i >= s.len() || i < 0 {
        if cur.len() == 0 {
            seq![]
        } else {
            seq![cur]
        }
    } else if s[i] == '/' {
        let rest = segments_from(s, i + 1, seq![]);
        if cur.len() == 0 {
            rest
        } else {
            seq![cur] + rest
        }
    } else {
        segments_from(s, i + 1, cur.push(s[i]))
    }
}

/// The non-empty segments of a path, in order.
pub open spec fn segments(s: Seq<char>) -> Seq<Seq<char>> {
    segments_from(s, 0, seq![])
}

/// A path that starts at the file system root.
pub open spec fn is_absolute(s: Seq<char>) -> bool {
    s.len() > 0 && s[0] == '/'
}

/// The views of a sequence of strings.
pub open spec fn views(v: Seq<String>) -> Seq<Seq<char>> {
    v.map_values(|x: String| x@)
}

/// Splits a path into its non-empty segments.
pub fn split_segments(s: &str) -> (r: Vec<String>)
    ensures
        views(r@) == segments(s@),
{
    let n = s.unicode_len();
    let mut out: Vec<String> = Vec::new();
    let mut start: usize = 0;
    let mut i: usize = 0;
    assert(s@.subrange(0, 0) =~= seq![]);
    assert(views(out@) + segments(s@) =~= segments(s@));
    while i < n
        invariant
            n == s@.len(),
            start <= i <= n,
            views(out@) + segments_from(s@, i as int, s@.subrange(start as int, i as int))
                == segments(s@),
        decreases n - i,
    {
        let c = s.get_char(i);
        let ghost cur = s@.subrange(start as int, i as int);
        if c == '/' {
            if start < i {
                let seg = s.substring_char(start, i).to_owned();
                assert(views(out@.push(seg)) =~= views(out@).push(seg@));
                assert(views(out@) + (seq![cur] + segments_from(s@, i + 1, seq![]))
                    =~= views(out@.push(seg)) + segments_from(s@, i + 1, seq![]));
                out.push(seg);
            } else {
                assert(cur =~= seq![]);
            }
            start = i + 1;
            assert(s@.subrange(start as int, start as int) =~= seq![]);
        } else {
            assert(cur.push(s@[i as int]) =~= s@.subrange(start as int, i + 1));
        }
        i = i + 1;
    }
    let ghost cur = s@.subrange(start as int, n as int);
    if start < n {
        let seg = s.substring_char(start, n).to_owned();
        assert(views(out@.push(seg)) =~= views(out@).push(seg@));
        assert(views(out@) + seq![cur] =~= views(out@.push(seg)));
        out.push(seg);
    } else {
        assert(views(out@) + seq![] =~= views(out@));
    }
    out
}


/// Segments joined by single separators, without a leading or trailing one.
pub open spec fn joined(xs: Seq<Seq<char>>) -> Seq<char>
    decreases xs.len(),
{
    if xs.len() == 0 {
        seq![]
    } else if xs.len() == 1 {
        xs[0]
    } else {
        joined(xs.drop_last()) + seq!['/'] + xs.last()
    }
}

/// A segment that names the current or the parent directory.
pub open spec fn is_dot_segment(x: Seq<char>) -> bool {
    x == seq!['.'] || x == seq!['.', '.']
}

/// No segment of `xs` is `.` or `..`: the path means what its segments say.
pub open spec fn is_plain(xs: Seq<Seq<char>>) -> bool {
    forall|i: int| 0 <= i < xs.len() ==> !is_dot_segment(#[trigger] xs[i])
}

/// `file` lies in the subtree of `root` (or is `root` itself): both are
/// absolute or both relative, neither holds a `.` or `..` segment, and the
/// segments of `root` begin those of `file`.
pub open spec fn is_under(root: Seq<char>, file: Seq<char>) -> bool {
    &&& is_absolute(root) == is_absolute(file)
    &&& is_plain(segments(root))
    &&& is_plain(segments(file))
    &&& segments(root).is_prefix_of(segments(file))
}

fn is_dot(s: &str) -> (r: bool)
    ensures
        r == is_dot_segment(s@),
{
    let n = s.unicode_len();
    if n == 1 {
        let c = s.get_char(0);
        assert(c == '.' ==> s@ =~= seq!['.']);
        assert(!(s@ =~= seq!['.', '.']));
        c == '.'
    } else if n == 2 {
        let c0 = s.get_char(0);
        let c1 = s.get_char(1);
        assert(c0 == '.' && c1 == '.' ==> s@ =~= seq!['.', '.']);
        assert(!(s@ =~= seq!['.']));
        c0 == '.' && c1 == '.'
    } else {
        assert(!(s@ =~= seq!['.']) && !(s@ =~= seq!['.', '.']));
        false
    }
}

fn all_plain(segs: &Vec<String>) -> (r: bool)
    ensures
        r == is_plain(views(segs@)),
{
    let ghost v = views(segs@);
    let mut k: usize = 0;
    while k < segs.len()
        invariant
            v == views(segs@),
            v.len() == segs@.len(),
            k <= segs@.len(),
            forall|j: int| 0 <= j < k ==> !is_dot_segment(#[trigger] v[j]),
        decreases segs@.len() - k,
    {
        assert(v[k as int] == segs@[k as int]@);
        if is_dot(segs[k].as_str()) {
            return false;
        }
        k = k + 1;
    }
    true
}

/// The path of `file` relative to `root`.
pub open spec fn relative_to(root: Seq<char>, file: Seq<char>) -> Seq<char> {
    joined(segments(file).skip(segments(root).len() as int))
}

/// `rel` appended to `base`, as a path join does for a relative `rel`.
pub open spec fn join_path(base: Seq<char>, rel: Seq<char>) -> Seq<char> {
    if rel.len() == 0 {
        base
    } else if base.len() == 0 {
        rel
    } else {
        base + seq!['/'] + rel
    }
}

/// Two paths name the same place: same anchoring, same segments.
pub open spec fn same_path(a: Seq<char>, b: Seq<char>) -> bool {
    is_absolute(a) == is_absolute(b) && segments(a) == segments(b)
}

fn starts_at_root(s: &str) -> (r: bool)
    ensures
        r == is_absolute(s@),
{
    let n = s.unicode_len();
    n > 0 && s.get_char(0) == '/'
}

/// Joins `xs[from..to]` with single separators.
fn join_range(xs: &Vec<String>, from: usize, to: usize) -> (r: String)
    requires
        from <= to <= xs@.len(),
    ensures
        r@ == joined(views(xs@).subrange(from as int, to as int)),
{
    let ghost v = views(xs@);
    let mut acc = String::new();
    let mut k: usize = from;
    assert(v.subrange(from as int, from as int) =~= seq![]);
    while k < to
        invariant
            v == views(xs@),
            from <= k <= to <= xs@.len(),
            acc@ == joined(v.subrange(from as int, k as int)),
        decreases to - k,
    {
        let ghost next = v.subrange(from as int, k + 1);
        assert(next.drop_last() =~= v.subrange(from as int, k as int));
        assert(next.last() == xs@[k as int]@);
        if k > from {
            proof {
                reveal_strlit("/");
            }
            acc.append("/");
        } else {
            assert(next =~= seq![v[k as int]]);
        }
        acc.append(xs[k].as_str());
        k = k + 1;
    }
    acc
}

/// The remote path of `file_path`, relative to the site root `root_path`.
///
/// Both paths are compared by their segments as written, so callers hand in
/// canonical ones; a path that still holds a `.` or `..` segment is refused,
/// since its segments do not say where it leads. The result names the
/// segments of `file_path` that follow those of `root_path`, joined by `/`;
/// it is empty where the two are the same path.
pub fn to_root_relative_path(root_path: &str, file_path: &str) -> (r: Result<String, PathError>)
    ensures
        is_under(root_path@, file_path@) ==> (r matches Ok(rel) && rel@ == relative_to(
            root_path@,
            file_path@,
        )),
        !is_under(root_path@, file_path@) ==> r == Err::<String, PathError>(
            PathError::NotUnderRoot,
        ),
{
    let root = split_segments(root_path);
    let file = split_segments(file_path);
    let ghost rv = views(root@);
    let ghost fv = views(file@);
    assert(rv.len() == root@.len() && fv.len() == file@.len());
    assert(rv.len() == root@.len() && fv.len() == file@.len());
    if starts_at_root(root_path) != starts_at_root(file_path) || !all_plain(&root) || !all_plain(
        &file,
    ) || root.len() > file.len() {
        return Err(PathError::NotUnderRoot);
    }
    let mut k: usize = 0;
    while k < root.len()
        invariant
            rv == views(root@),
            fv == views(file@),
            rv == segments(root_path@),
            fv == segments(file_path@),
            is_absolute(root_path@) == is_absolute(file_path@),
            is_plain(rv),
            is_plain(fv),
            rv.len() <= fv.len(),
            k <= rv.len(),
            forall|j: int| 0 <= j < k ==> rv[j] == fv[j],
        decreases root@.len() - k,
    {
        if root[k] != file[k] {
            assert(rv[k as int] == root@[k as int]@ && fv[k as int] == file@[k as int]@);
            assert(!rv.is_prefix_of(fv)) by {
                if rv.is_prefix_of(fv) {
                    assert(fv.subrange(0, rv.len() as int)[k as int] == fv[k as int]);
                }
            }
            return Err(PathError::NotUnderRoot);
        }
        assert(rv[k as int] == root@[k as int]@ && fv[k as int] == file@[k as int]@);
        k = k + 1;
    }
    assert(fv.subrange(0, rv.len() as int) =~= rv);
    assert(fv.subrange(rv.len() as int, fv.len() as int) =~= fv.skip(rv.len() as int));
    Ok(join_range(&file, root.len(), file.len()))
}


/// Marks a path given for deletion as already remote.
pub const REMOTE_MARKER: char = ':';

/// A path given for deletion that starts with the remote marker names a
/// remote path as it stands: the path without the marker.
pub fn explicit_remote_path(given: &str) -> (r: Option<String>)
    ensures
        given@.len() > 0 && given@[0] == REMOTE_MARKER ==> (r matches Some(p) && p@
            == given@.subrange(1, given@.len() as int)),
        !(given@.len() > 0 && given@[0] == REMOTE_MARKER) ==> r is None,
{
    let n = given.unicode_len();
    if n > 0 && given.get_char(0) == REMOTE_MARKER {
        Some(given.substring_char(1, n).to_owned())
    } else {
        None
    }
}

/// The remote path for a local file: relative to the site root where there
/// is one, else the path as given.
pub fn remote_path_for(site_root: Option<&str>, file_path: &str) -> (r: Result<String, PathError>)
    ensures
        site_root is None ==> (r matches Ok(p) && p@ == file_path@),
        site_root matches Some(root) ==> (is_under(root@, file_path@) ==> (r matches Ok(rel)
            && rel@ == relative_to(root@, file_path@))),
        site_root matches Some(root) ==> (!is_under(root@, file_path@) ==> r == Err::<
            String,
            PathError,
        >(PathError::NotUnderRoot)),
{
    match site_root {
        Some(root) => to_root_relative_path(root, file_path),
        None => Ok(file_path.to_owned()),
    }
}

/// The path made of the segments `xs`, from the file system root where
/// `absolute` holds.
pub open spec fn rooted(absolute: bool, xs: Seq<Seq<char>>) -> Seq<char> {
    if absolute {
        seq!['/'] + joined(xs)
    } else {
        joined(xs)
    }
}

fn rooted_prefix(segs: &Vec<String>, absolute: bool, len: usize) -> (r: String)
    requires
        len <= segs@.len(),
    ensures
        r@ == rooted(absolute, views(segs@).take(len as int)),
{
    let body = join_range(segs, 0, len);
    assert(views(segs@).subrange(0, len as int) =~= views(segs@).take(len as int));
    if absolute {
        let mut r = String::from_str("/");
        proof {
            reveal_strlit("/");
        }
        r.append(body.as_str());
        r
    } else {
        body
    }
}

/// The directory `dir` and each directory above it, nearest first, ending
/// with the file system root (or the empty path, for a relative `dir`).
pub fn ancestors(dir: &str) -> (r: Vec<String>)
    ensures
        r@.len() == segments(dir@).len() + 1,
        forall|k: int|
            0 <= k < r@.len() ==> #[trigger] r@[k]@ == rooted(
                is_absolute(dir@),
                segments(dir@).take(segments(dir@).len() - k),
            ),
{
    let segs = split_segments(dir);
    let absolute = starts_at_root(dir);
    let ghost sv = segments(dir@);
    assert(sv.len() == segs@.len());
    let mut out: Vec<String> = Vec::new();
    let mut len: usize = segs.len();
    out.push(rooted_prefix(&segs, absolute, len));
    while len > 0
        invariant
            sv == segments(dir@),
            sv == views(segs@),
            sv.len() == segs@.len(),
            absolute == is_absolute(dir@),
            len <= segs@.len(),
            out@.len() == segs@.len() - len + 1,
            forall|k: int|
                0 <= k < out@.len() ==> #[trigger] out@[k]@ == rooted(
                    absolute,
                    sv.take(sv.len() - k),
                ),
        decreases len,
    {
        len = len - 1;
        out.push(rooted_prefix(&segs, absolute, len));
    }
    out
}

/// A segment: non-empty and free of separators.
pub open spec fn is_segment(x: Seq<char>) -> bool {
    x.len() > 0 && forall|j: int| 0 <= j < x.len() ==> x[j] != '/'
}

proof fn lemma_segments_shift(p: Seq<char>, q: Seq<char>, j: int, cur: Seq<char>)
    requires
        0 <= j,
    ensures
        segments_from(p + q, p.len() + j, cur) == segments_from(q, j, cur),
    decreases q.len() - j,
{
    if j < q.len() {
        assert((p + q)[p.len() + j] == q[j]);
        if q[j] == '/' {
            lemma_segments_shift(p, q, j + 1, seq![]);
        } else {
            lemma_segments_shift(p, q, j + 1, cur.push(q[j]));
        }
    }
}

proof fn lemma_segments_concat(a: Seq<char>, b: Seq<char>, i: int, cur: Seq<char>)
    requires
        0 <= i <= a.len(),
    ensures
        segments_from(a + seq!['/'] + b, i, cur) == segments_from(a, i, cur) + segments(b),
    decreases a.len() - i,
{
    let s = a + seq!['/'] + b;
    if i == a.len() {
        assert(s[i] == '/');
        lemma_segments_shift(a + seq!['/'], b, 0, seq![]);
        assert(s == (a + seq!['/']) + b);
        let rest = segments_from(s, i + 1, seq![]);
        if cur.len() == 0 {
            assert(seq![] + rest =~= rest);
        }
    } else {
        assert(s[i] == a[i]);
        if a[i] == '/' {
            lemma_segments_concat(a, b, i + 1, seq![]);
            let ra = segments_from(a, i + 1, seq![]);
            assert(seq![cur] + (ra + segments(b)) =~= (seq![cur] + ra) + segments(b));
        } else {
            lemma_segments_concat(a, b, i + 1, cur.push(a[i]));
        }
    }
}

proof fn lemma_segments_single(w: Seq<char>, i: int, cur: Seq<char>)
    requires
        0 <= i <= w.len(),
        forall|j: int| 0 <= j < w.len() ==> w[j] != '/',
    ensures
        (cur + w.subrange(i, w.len() as int)).len() == 0 ==> segments_from(w, i, cur) == Seq::<
            Seq<char>,
        >::empty(),
        (cur + w.subrange(i, w.len() as int)).len() > 0 ==> segments_from(w, i, cur) == seq![
            cur + w.subrange(i, w.len() as int),
        ],
    decreases w.len() - i,
{
    if i == w.len() {
        assert(cur + w.subrange(i, w.len() as int) =~= cur);
    } else {
        lemma_segments_single(w, i + 1, cur.push(w[i]));
        assert(cur.push(w[i]) + w.subrange(i + 1, w.len() as int) =~= cur + w.subrange(
            i,
            w.len() as int,
        ));
    }
}

proof fn lemma_segments_are_segments(s: Seq<char>, i: int, cur: Seq<char>)
    requires
        forall|j: int| 0 <= j < cur.len() ==> cur[j] != '/',
    ensures
        forall|k: int|
            0 <= k < segments_from(s, i, cur).len() ==> is_segment(
                #[trigger] segments_from(s, i, cur)[k],
            ),
    decreases s.len() - i,
{
    if i >= s.len() || i < 0 {
        if cur.len() > 0 {
            assert(segments_from(s, i, cur) == seq![cur]);
            assert(seq![cur][0] == cur);
            assert(is_segment(cur));
        }
    } else if s[i] == '/' {
        let rest = segments_from(s, i + 1, seq![]);
        lemma_segments_are_segments(s, i + 1, seq![]);
        if cur.len() > 0 {
            let all = seq![cur] + rest;
            assert(segments_from(s, i, cur) == all);
            assert forall|k: int| 0 <= k < all.len() implies is_segment(#[trigger] all[k]) by {
                if k > 0 {
                    assert(all[k] == rest[k - 1]);
                    assert(is_segment(rest[k - 1]));
                } else {
                    assert(all[0] == cur);
                }
            }
        } else {
            assert(segments_from(s, i, cur) == rest);
        }
    } else {
        let next = cur.push(s[i]);
        assert forall|j: int| 0 <= j < next.len() implies next[j] != '/' by {
            if j < cur.len() {
                assert(next[j] == cur[j]);
            }
        }
        lemma_segments_are_segments(s, i + 1, next);
        assert(segments_from(s, i, cur) == segments_from(s, i + 1, next));
    }
}

proof fn lemma_segments_of_joined(xs: Seq<Seq<char>>)
    requires
        forall|k: int| 0 <= k < xs.len() ==> is_segment(#[trigger] xs[k]),
    ensures
        segments(joined(xs)) == xs,
    decreases xs.len(),
{
    if xs.len() == 0 {
    } else if xs.len() == 1 {
        assert(is_segment(xs[0]));
        lemma_segments_single(xs[0], 0, seq![]);
        assert(seq![] + xs[0].subrange(0, xs[0].len() as int) =~= xs[0]);
        assert(xs =~= seq![xs[0]]);
    } else {
        let init = xs.drop_last();
        let w = xs.last();
        assert(is_segment(xs[xs.len() - 1]));
        assert forall|k: int| 0 <= k < init.len() implies is_segment(#[trigger] init[k]) by {
            assert(init[k] == xs[k]);
        }
        lemma_segments_of_joined(init);
        lemma_segments_concat(joined(init), w, 0, seq![]);
        lemma_segments_single(w, 0, seq![]);
        assert(seq![] + w.subrange(0, w.len() as int) =~= w);
        assert(init + seq![w] =~= xs);
    }
}

/// Joining a site root with the relative path of a file under it names that
/// file again: the relative path loses nothing and adds nothing.
pub proof fn relative_path_round_trip(root: Seq<char>, file: Seq<char>)
    requires
        is_absolute(root),
        is_under(root, file),
    ensures
        same_path(join_path(root, relative_to(root, file)), file),
{
    let rs = segments(root);
    let fs = segments(file);
    let tail = fs.skip(rs.len() as int);
    let rel = relative_to(root, file);
    lemma_segments_are_segments(file, 0, seq![]);
    assert forall|k: int| 0 <= k < tail.len() implies is_segment(#[trigger] tail[k]) by {
        assert(tail[k] == fs[k + rs.len()]);
    }
    lemma_segments_of_joined(tail);
    assert(fs =~= rs + tail);
    if rel.len() == 0 {
        assert(rel =~= seq![]);
        assert(segments(rel) =~= Seq::<Seq<char>>::empty());
        assert(fs =~= rs);
    } else {
        lemma_segments_concat(root, rel, 0, seq![]);
        assert((root + seq!['/'] + rel)[0] == root[0]);
    }
}

} // verus!
