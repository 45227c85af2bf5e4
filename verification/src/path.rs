//! Unix path arithmetic over path text: components, `file_name`, `parent`,
//! `join` and `starts_with`, with the meaning that `std::path` gives them on Unix.

use vstd::prelude::*;

use crate::text::own;

verus! {

/// A path component, as `std::path::Component` names them on Unix.
pub enum Comp {
    RootDir,
    CurDir,
    ParentDir,
    Normal(Seq<char>),
}

/// The path starts with the root directory.
pub open spec fn has_root(p: Seq<char>) -> bool {
    p.len() > 0 && p[0] == '/'
}

/// The path starts with a `.` component (kept only at the front).
pub open spec fn has_cur_dir(p: Seq<char>) -> bool {
    &&& !has_root(p)
    &&& p.len() > 0
    &&& p[0] == '.'
    &&& (p.len() == 1 || p[1] == '/')
}

/// Where the body (the components after the root or the leading `.`) starts.
pub open spec fn body_start(p: Seq<char>) -> int {
    if has_root(p) || has_cur_dir(p) {
        1
    } else {
        0
    }
}

/// The index of the last `/` in `p[lo..k]`, or `lo - 1` when there is none.
pub open spec fn sep_before(p: Seq<char>, lo: int, k: int) -> int
    decreases k - lo,
{
    if k <= lo {
        lo - 1
    } else if p[k - 1] == '/' {
        k - 1
    } else {
        sep_before(p, lo, k - 1)
    }
}

/// The span `(start, end)` of the last component of `p[lo..k]` that counts:
/// empty pieces (repeated or trailing `/`) and `.` pieces are skipped.
pub open spec fn last_segment(p: Seq<char>, lo: int, k: int) -> Option<(int, int)>
    decreases k - lo,
{
    if k <= lo {
        None
    } else {
        let s = sep_before(p, lo, k) + 1;
        if s == k || (s + 1 == k && p[s] == '.') {
            if s <= lo {
                None
            } else {
                proof {
                    lemma_sep_before_bounds(p, lo, k);
                }
                last_segment(p, lo, s - 1)
            }
        } else {
            Some((s, k))
        }
    }
}

/// The spans of all components that count in `p[lo..k]`, in order.
pub open spec fn segments(p: Seq<char>, lo: int, k: int) -> Seq<(int, int)>
    decreases k - lo,
{
    match last_segment(p, lo, k) {
        None => Seq::empty(),
        Some(span) => {
            proof {
                lemma_last_segment_bounds(p, lo, k);
            }
            if span.0 < k && lo <= span.0 {
                segments(p, lo, span.0).push(span)
            } else {
                Seq::empty()
            }
        },
    }
}

/// The component named by the span.
pub open spec fn comp_of(p: Seq<char>, span: (int, int)) -> Comp {
    let t = p.subrange(span.0, span.1);
    if t == seq!['.', '.'] {
        Comp::ParentDir
    } else {
        Comp::Normal(t)
    }
}

/// The components of `p` (`Path::components`).
pub open spec fn spec_components(p: Seq<char>) -> Seq<Comp> {
    let front: Seq<Comp> = if has_root(p) {
        seq![Comp::RootDir]
    } else if has_cur_dir(p) {
        seq![Comp::CurDir]
    } else {
        Seq::empty()
    };
    front + segments(p, body_start(p), p.len() as int).map_values(|span: (int, int)| comp_of(p, span))
}

/// `Path::file_name`: the last component when it is a normal one.
pub open spec fn spec_file_name(p: Seq<char>) -> Option<Seq<char>> {
    match last_segment(p, body_start(p), p.len() as int) {
        Some(span) => {
            let t = p.subrange(span.0, span.1);
            if t == seq!['.', '.'] {
                None
            } else {
                Some(t)
            }
        },
        None => None,
    }
}

/// `Path::parent`: the path without its last component, as a prefix of the
/// text; none for the root alone and for the empty path.
pub open spec fn spec_parent(p: Seq<char>) -> Option<Seq<char>> {
    let b = body_start(p);
    match last_segment(p, b, p.len() as int) {
        Some(span) => match last_segment(p, b, span.0) {
            Some(prev) => Some(p.subrange(0, prev.1)),
            None => Some(p.subrange(0, b)),
        },
        None => if has_cur_dir(p) {
            Some(Seq::empty())
        } else {
            None
        },
    }
}

/// `Path::join`: an absolute `name` replaces `base`; otherwise a `/` is put
/// between them unless `base` is empty or already ends in one.
pub open spec fn spec_join(base: Seq<char>, name: Seq<char>) -> Seq<char> {
    if has_root(name) {
        name
    } else if base.len() > 0 && base.last() != '/' {
        base + seq!['/'] + name
    } else {
        base + name
    }
}

/// `Path::starts_with`: the components of `base` are a prefix of those of `p`.
pub open spec fn spec_starts_with(p: Seq<char>, base: Seq<char>) -> bool {
    let a = spec_components(p);
    let b = spec_components(base);
    b.len() <= a.len() && a.subrange(0, b.len() as int) == b
}

pub proof fn lemma_sep_before_bounds(p: Seq<char>, lo: int, k: int)
    requires
        lo <= k,
    ensures
        lo - 1 <= sep_before(p, lo, k) < k,
        sep_before(p, lo, k) >= lo ==> p[sep_before(p, lo, k)] == '/',
    decreases k - lo,
{
    if k > lo && p[k - 1] != '/' {
        lemma_sep_before_bounds(p, lo, k - 1);
    }
}

pub proof fn lemma_last_segment_bounds(p: Seq<char>, lo: int, k: int)
    ensures
        last_segment(p, lo, k) matches Some(span) ==> lo <= span.0 < span.1 <= k,
    decreases k - lo,
{
    if k > lo {
        lemma_sep_before_bounds(p, lo, k);
        let s = sep_before(p, lo, k) + 1;
        if s == k || (s + 1 == k && p[s] == '.') {
            if s > lo {
                lemma_last_segment_bounds(p, lo, s - 1);
            }
        }
    }
}

proof fn lemma_not_dotdot(p: Seq<char>, s: int, e: int, t: Seq<char>)
    requires
        0 <= s < e <= p.len(),
        t == p.subrange(s, e),
        !(e - s == 2 && p[s] == '.' && p[s + 1] == '.'),
    ensures
        t != seq!['.', '.'],
{
    if t == seq!['.', '.'] {
        assert(t.len() == 2);
        assert(t[0] == p[s]);
        assert(t[1] == p[s + 1]);
        assert(seq!['.', '.'][0] == '.');
        assert(seq!['.', '.'][1] == '.');
    }
}

/// A single normal component: not empty, without `/`, neither `.` nor `..`.
pub open spec fn is_plain_name(name: Seq<char>) -> bool {
    &&& name.len() > 0
    &&& forall|i: int| 0 <= i < name.len() ==> #[trigger] name[i] != '/'
    &&& name != seq!['.']
    &&& name != seq!['.', '.']
}

proof fn lemma_sep_before_none(p: Seq<char>, lo: int, k: int)
    requires
        lo <= k,
        forall|i: int| lo <= i < k ==> #[trigger] p[i] != '/',
    ensures
        sep_before(p, lo, k) == lo - 1,
    decreases k - lo,
{
    if k > lo {
        lemma_sep_before_none(p, lo, k - 1);
    }
}

proof fn lemma_sep_before_at(p: Seq<char>, lo: int, j: int, k: int)
    requires
        lo <= j < k,
        p[j] == '/',
        forall|i: int| j < i < k ==> #[trigger] p[i] != '/',
    ensures
        sep_before(p, lo, k) == j,
    decreases k - j,
{
    if k - 1 > j {
        lemma_sep_before_at(p, lo, j, k - 1);
    }
}

/// Joining a plain name makes it the last component, spanning the end.
pub proof fn lemma_join_last_segment(q: Seq<char>, name: Seq<char>)
    requires
        is_plain_name(name),
    ensures
        ({
            let d = spec_join(q, name);
            let j: int = d.len() - name.len();
            &&& 0 <= j
            &&& last_segment(d, body_start(d), d.len() as int) == Some((j, d.len() as int))
            &&& d.subrange(j, d.len() as int) == name
        }),
{
    let d = spec_join(q, name);
    let n: int = d.len() as int;
    assert(!has_root(name)) by {
        assert(name[0] != '/');
    }
    let j: int = n - name.len();
    if q.len() == 0 {
        assert(d =~= name);
        if has_cur_dir(d) {
            assert(name.len() == 1);
            assert(name =~= seq!['.']);
        }
        assert(body_start(d) == 0);
        lemma_sep_before_none(d, 0, n);
    } else {
        if q.last() != '/' {
            assert(d =~= q + seq!['/'] + name);
            assert(d[q.len() as int] == '/');
        } else {
            assert(d =~= q + name);
            assert(d[q.len() - 1] == '/');
        }
        assert(d[j - 1] == '/');
        assert forall|i: int| j - 1 < i < n implies #[trigger] d[i] != '/' by {
            assert(d[i] == name[i - j]);
        }
        let b = body_start(d);
        if j - 1 >= b {
            lemma_sep_before_at(d, b, j - 1, n);
        } else {
            assert forall|i: int| b <= i < n implies #[trigger] d[i] != '/' by {
                assert(d[i] == name[i - j]);
            }
            lemma_sep_before_none(d, b, n);
        }
    }
    assert(d.subrange(j, n) =~= name);
    if j + 1 == n && d[j] == '.' {
        assert(name =~= seq!['.']);
    }
}

/// The file name of a plain name joined to any path is that name.
pub proof fn lemma_file_name_of_join(q: Seq<char>, name: Seq<char>)
    requires
        is_plain_name(name),
    ensures
        spec_file_name(spec_join(q, name)) == Some(name),
{
    lemma_join_last_segment(q, name);
}

proof fn lemma_sep_before_prefix(p: Seq<char>, p2: Seq<char>, lo: int, k: int)
    requires
        0 <= lo,
        k <= p.len(),
        k <= p2.len(),
        forall|i: int| 0 <= i < k ==> #[trigger] p[i] == p2[i],
    ensures
        sep_before(p, lo, k) == sep_before(p2, lo, k),
    decreases k - lo,
{
    if k > lo {
        assert(p[k - 1] == p2[k - 1]);
        lemma_sep_before_prefix(p, p2, lo, k - 1);
    }
}

proof fn lemma_last_segment_prefix(p: Seq<char>, p2: Seq<char>, lo: int, k: int)
    requires
        0 <= lo,
        k <= p.len(),
        k <= p2.len(),
        forall|i: int| 0 <= i < k ==> #[trigger] p[i] == p2[i],
    ensures
        last_segment(p, lo, k) == last_segment(p2, lo, k),
    decreases k - lo,
{
    if k > lo {
        lemma_sep_before_prefix(p, p2, lo, k);
        lemma_sep_before_bounds(p, lo, k);
        let s = sep_before(p, lo, k) + 1;
        if s < k {
            assert(p[s] == p2[s]);
        }
        if s == k || (s + 1 == k && p[s] == '.') {
            if s > lo {
                lemma_last_segment_prefix(p, p2, lo, s - 1);
            }
        }
    }
}

proof fn lemma_last_segment_idem(p: Seq<char>, lo: int, k: int)
    ensures
        last_segment(p, lo, k) matches Some(span) ==> last_segment(p, lo, span.1) == Some(span),
    decreases k - lo,
{
    if k > lo {
        lemma_sep_before_bounds(p, lo, k);
        let s = sep_before(p, lo, k) + 1;
        if s == k || (s + 1 == k && p[s] == '.') {
            if s > lo {
                lemma_last_segment_idem(p, lo, s - 1);
            }
        }
    }
}

proof fn lemma_last_segment_at_end(p: Seq<char>, lo: int, k: int)
    requires
        last_segment(p, lo, k) matches Some(span) && span.1 == k,
    ensures
        last_segment(p, lo, k).unwrap().0 == sep_before(p, lo, k) + 1,
{
    lemma_sep_before_bounds(p, lo, k);
    let s = sep_before(p, lo, k) + 1;
    if s == k || (s + 1 == k && p[s] == '.') {
        if s > lo {
            lemma_last_segment_bounds(p, lo, s - 1);
        }
    }
}

proof fn lemma_body_start_prefix(p: Seq<char>, p2: Seq<char>, k: int)
    requires
        2 <= k <= p.len(),
        k <= p2.len(),
        forall|i: int| 0 <= i < k ==> #[trigger] p[i] == p2[i],
    ensures
        body_start(p) == body_start(p2),
        has_root(p) == has_root(p2),
        has_cur_dir(p) == has_cur_dir(p2),
{
    assert(p[0] == p2[0]);
    assert(p[1] == p2[1]);
}

/// The parent of a plain name joined to a parent path is that parent path:
/// the copy lands in the same directory as the folder it copies.
pub proof fn lemma_parent_of_join(source: Seq<char>, name: Seq<char>)
    requires
        is_plain_name(name),
        spec_parent(source) is Some,
    ensures
        spec_parent(spec_join(spec_parent(source).unwrap(), name)) == spec_parent(source),
{
    let q = spec_parent(source).unwrap();
    let d = spec_join(q, name);
    let n: int = d.len() as int;
    lemma_join_last_segment(q, name);
    let j: int = n - name.len();
    let bs = body_start(source);
    let bd = body_start(d);
    assert(!has_root(name)) by {
        assert(name[0] != '/');
    }
    if q.len() == 0 {
        assert(d =~= name);
        assert(j == 0);
        assert(bd == 0) by {
            if has_cur_dir(d) {
                assert(name =~= seq!['.']);
            }
        }
        assert(d.subrange(0, 0) =~= q);
        assert(last_segment(d, bd, j) is None);
        assert(spec_parent(d) == Some(q));
    } else {
        let last = last_segment(source, bs, source.len() as int);
        let span = last.unwrap();
        lemma_last_segment_bounds(source, bs, source.len() as int);
        let prev = last_segment(source, bs, span.0);
        lemma_last_segment_bounds(source, bs, span.0);
        if prev is Some {
            let e2 = prev.unwrap().1;
            let s2 = prev.unwrap().0;
            assert(q =~= source.subrange(0, e2));
            lemma_last_segment_idem(source, bs, span.0);
            lemma_sep_before_bounds(source, bs, e2);
            // the previous component ends with a character that is not `/`
            assert(source[e2 - 1] != '/') by {
                lemma_last_segment_at_end(source, bs, e2);
                assert(sep_before(source, bs, e2) + 1 == s2);
                if source[e2 - 1] == '/' {
                    assert(sep_before(source, bs, e2) == e2 - 1);
                }
            }
            assert(q.last() != '/');
            assert(d =~= q + seq!['/'] + name);
            assert(j == e2 + 1);
            assert forall|i: int| 0 <= i < e2 implies #[trigger] d[i] == source[i] by {
                assert(d[i] == q[i]);
            }
            if e2 >= 2 {
                lemma_body_start_prefix(d, source, e2);
            } else {
                assert(s2 == 0);
                assert(bs == 0);
                assert(source.subrange(0, 1) =~= seq![source[0]]);
                assert(source[0] != '.') by {
                    if source[0] == '.' {
                        assert(sep_before(source, bs, e2) == -1);
                    }
                }
                assert(d[0] == source[0]);
                assert(bd == 0);
            }
            // after the inserted `/`, the previous component of `d` is that of `source`
            lemma_sep_before_at(d, bd, j - 1, j);
            lemma_last_segment_prefix(d, source, bs, e2);
            assert(last_segment(d, bd, j) == last_segment(d, bd, e2));
            assert(d.subrange(0, e2) =~= q);
            assert(last_segment(d, bd, j) == prev);
            assert(spec_parent(d) == Some(q));
        } else {
            // no previous component: the parent is the root or `.`
            assert(q =~= source.subrange(0, bs));
            assert(q.len() == 1);
            if has_root(source) {
                assert(q =~= seq!['/']);
                assert(d =~= q + name);
                assert(has_root(d));
                assert(bd == 1);
                assert(j == 1);
            } else {
                assert(has_cur_dir(source));
                assert(q =~= seq!['.']);
                assert(d =~= q + seq!['/'] + name);
                assert(d[0] == '.' && d[1] == '/');
                assert(has_cur_dir(d));
                assert(j == 2);
                assert(!has_root(d));
                assert(bd == 1);
                lemma_sep_before_at(d, 1, 1, 2);
                assert(last_segment(d, 1, 1) is None);
            }
            assert(d.subrange(0, 1) =~= q);
            assert(last_segment(d, bd, j) is None);
            assert(spec_parent(d) == Some(q));
        }
    }
}

/// The piece of `p[lo..k]` after its last `/` starts here.
fn piece_start(p: &str, lo: usize, k: usize) -> (r: usize)
    requires
        lo <= k <= p@.len(),
    ensures
        r == sep_before(p@, lo as int, k as int) + 1,
        lo <= r <= k,
{
    let mut j = k;
    while j > lo && p.get_char(j - 1) != '/'
        invariant
            lo <= j <= k <= p@.len(),
            sep_before(p@, lo as int, k as int) == sep_before(p@, lo as int, j as int),
        decreases j,
    {
        j = j - 1;
    }
    j
}

fn last_segment_exec(p: &str, lo: usize, k: usize) -> (r: Option<(usize, usize)>)
    requires
        lo <= k <= p@.len(),
    ensures
        match r {
            Some(span) => last_segment(p@, lo as int, k as int) == Some((span.0 as int, span.1 as int)),
            None => last_segment(p@, lo as int, k as int) is None,
        },
{
    let mut j = k;
    loop
        invariant
            lo <= j <= p@.len(),
            k <= p@.len(),
            last_segment(p@, lo as int, k as int) == last_segment(p@, lo as int, j as int),
        decreases j,
    {
        if j <= lo {
            return None;
        }
        let s: usize = piece_start(p, lo, j);
        if s == j || (s + 1 == j && p.get_char(s) == '.') {
            if s <= lo {
                return None;
            }
            j = s - 1;
        } else {
            return Some((s, j));
        }
    }
}

/// Where the body of `p` starts (see `body_start`).
fn body_start_exec(p: &str) -> (r: usize)
    ensures
        r == body_start(p@),
        r <= p@.len(),
{
    let n: usize = p.unicode_len();
    if n > 0 && p.get_char(0) == '/' {
        1
    } else if n > 0 && p.get_char(0) == '.' && (n == 1 || p.get_char(1) == '/') {
        1
    } else {
        0
    }
}

/// `Path::is_absolute` on Unix: the path starts with `/`.
pub fn is_absolute(p: &str) -> (r: bool)
    ensures
        r == has_root(p@),
{
    p.unicode_len() > 0 && p.get_char(0) == '/'
}

/// `Path::file_name`.
pub fn file_name(p: &str) -> (r: Option<String>)
    ensures
        match r {
            Some(s) => spec_file_name(p@) == Some(s@),
            None => spec_file_name(p@) is None,
        },
{
    let n: usize = p.unicode_len();
    let b: usize = body_start_exec(p);
    match last_segment_exec(p, b, n) {
        Some((s, e)) => {
            proof {
                lemma_last_segment_bounds(p@, b as int, n as int);
            }
            if e - s == 2 && p.get_char(s) == '.' && p.get_char(s + 1) == '.' {
                assert(p@.subrange(s as int, e as int) =~= seq!['.', '.']);
                None
            } else {
                let t = own(p.substring_char(s, e));
                proof {
                    lemma_not_dotdot(p@, s as int, e as int, t@);
                }
                Some(t)
            }
        },
        None => None,
    }
}

/// `Path::parent`.
pub fn parent(p: &str) -> (r: Option<String>)
    ensures
        match r {
            Some(s) => spec_parent(p@) == Some(s@),
            None => spec_parent(p@) is None,
        },
{
    let n: usize = p.unicode_len();
    let b: usize = body_start_exec(p);
    match last_segment_exec(p, b, n) {
        Some((s, _e)) => {
            proof {
                lemma_last_segment_bounds(p@, b as int, n as int);
            }
            match last_segment_exec(p, b, s) {
                Some((_s2, e2)) => {
                    proof {
                        lemma_last_segment_bounds(p@, b as int, s as int);
                    }
                    Some(own(p.substring_char(0, e2)))
                },
                None => Some(own(p.substring_char(0, b))),
            }
        },
        None => {
            if n > 0 && p.get_char(0) == '.' && (n == 1 || p.get_char(1) == '/') {
                Some(String::new())
            } else {
                None
            }
        },
    }
}

/// `Path::join`.
pub fn join(base: &str, name: &str) -> (r: String)
    ensures
        r@ == spec_join(base@, name@),
{
    if is_absolute(name) {
        return own(name);
    }
    let n: usize = base.unicode_len();
    let mut r = own(base);
    if n > 0 && base.get_char(n - 1) != '/' {
        r.append("/");
        proof {
            reveal_strlit("/");
        }
    }
    r.append(name);
    r
}


/// A path component with its text.
pub enum PathComponent {
    RootDir,
    CurDir,
    ParentDir,
    Normal(String),
}

impl View for PathComponent {
    type V = Comp;

    open spec fn view(&self) -> Comp {
        match self {
            PathComponent::RootDir => Comp::RootDir,
            PathComponent::CurDir => Comp::CurDir,
            PathComponent::ParentDir => Comp::ParentDir,
            PathComponent::Normal(s) => Comp::Normal(s@),
        }
    }
}

/// The views of a list of components.
pub open spec fn comp_views(v: Seq<PathComponent>) -> Seq<Comp> {
    v.map_values(|c: PathComponent| c@)
}

/// Spans as mathematical pairs.
pub open spec fn spans_int(v: Seq<(usize, usize)>) -> Seq<(int, int)> {
    v.map_values(|x: (usize, usize)| (x.0 as int, x.1 as int))
}

fn comp_exec(p: &str, s: usize, e: usize) -> (r: PathComponent)
    requires
        s < e <= p@.len(),
    ensures
        r@ == comp_of(p@, (s as int, e as int)),
{
    if e - s == 2 && p.get_char(s) == '.' && p.get_char(s + 1) == '.' {
        assert(p@.subrange(s as int, e as int) =~= seq!['.', '.']);
        PathComponent::ParentDir
    } else {
        let t = own(p.substring_char(s, e));
        proof {
            lemma_not_dotdot(p@, s as int, e as int, t@);
        }
        PathComponent::Normal(t)
    }
}

/// `Path::components`.
pub fn components(p: &str) -> (r: Vec<PathComponent>)
    ensures
        comp_views(r@) == spec_components(p@),
{
    let n: usize = p.unicode_len();
    let b: usize = body_start_exec(p);
    let mut spans: Vec<(usize, usize)> = Vec::new();
    let mut k = n;
    loop
        invariant
            b <= k <= n,
            n == p@.len(),
            b == body_start(p@),
            segments(p@, b as int, n as int) =~= segments(p@, b as int, k as int) + spans_int(
                spans@,
            ),
            forall|i: int|
                0 <= i < spans@.len() ==> #[trigger] spans@[i].0 < spans@[i].1 && spans@[i].1 <= n,
        ensures
            b <= k <= n,
            last_segment(p@, b as int, k as int) is None,
            segments(p@, b as int, n as int) =~= segments(p@, b as int, k as int) + spans_int(
                spans@,
            ),
            forall|i: int|
                0 <= i < spans@.len() ==> #[trigger] spans@[i].0 < spans@[i].1 && spans@[i].1 <= n,
        decreases k,
    {
        match last_segment_exec(p, b, k) {
            None => {
                break ;
            },
            Some((s, e)) => {
                proof {
                    lemma_last_segment_bounds(p@, b as int, k as int);
                }
                let ghost old_spans = spans@;
                spans.insert(0, (s, e));
                assert(spans_int(spans@) =~= seq![(s as int, e as int)] + spans_int(old_spans));
                k = s;
            },
        }
    }
    assert(segments(p@, b as int, k as int) =~= Seq::<(int, int)>::empty());
    let mut r: Vec<PathComponent> = Vec::new();
    if n > 0 && p.get_char(0) == '/' {
        r.push(PathComponent::RootDir);
    } else if n > 0 && p.get_char(0) == '.' && (n == 1 || p.get_char(1) == '/') {
        r.push(PathComponent::CurDir);
    }
    let ghost front = comp_views(r@);
    let ghost segs = segments(p@, b as int, n as int);
    let mut i: usize = 0;
    while i < spans.len()
        invariant
            i <= spans.len(),
            segs == spans_int(spans@),
            forall|j: int|
                0 <= j < spans@.len() ==> #[trigger] spans@[j].0 < spans@[j].1 && spans@[j].1 <= n,
            n == p@.len(),
            comp_views(r@) =~= front + segs.subrange(0, i as int).map_values(
                |span: (int, int)| comp_of(p@, span),
            ),
        decreases spans.len() - i,
    {
        let (s, e) = spans[i];
        let c = comp_exec(p, s, e);
        let ghost old_views = comp_views(r@);
        r.push(c);
        assert(comp_views(r@) =~= old_views.push(c@));
        assert(segs[i as int] == (s as int, e as int));
        assert(segs.subrange(0, i + 1) =~= segs.subrange(0, i as int).push(segs[i as int]));
        i = i + 1;
    }
    assert(segs.subrange(0, i as int) =~= segs);
    r
}

fn comp_eq(a: &PathComponent, b: &PathComponent) -> (r: bool)
    ensures
        r == (a@ == b@),
{
    match (a, b) {
        (PathComponent::RootDir, PathComponent::RootDir) => true,
        (PathComponent::CurDir, PathComponent::CurDir) => true,
        (PathComponent::ParentDir, PathComponent::ParentDir) => true,
        (PathComponent::Normal(x), PathComponent::Normal(y)) => crate::text::str_eq(x.as_str(), y.as_str()),
        _ => false,
    }
}

/// `Path::starts_with`.
pub fn starts_with(p: &str, base: &str) -> (r: bool)
    ensures
        r == spec_starts_with(p@, base@),
{
    let a = components(p);
    let b = components(base);
    if b.len() > a.len() {
        return false;
    }
    let mut i: usize = 0;
    while i < b.len()
        invariant
            i <= b.len() <= a.len(),
            comp_views(a@) == spec_components(p@),
            comp_views(b@) == spec_components(base@),
            forall|j: int| 0 <= j < i ==> #[trigger] a@[j]@ == b@[j]@,
        decreases b.len() - i,
    {
        if !comp_eq(&a[i], &b[i]) {
            assert(comp_views(a@).subrange(0, b.len() as int)[i as int] != comp_views(b@)[i as int]);
            return false;
        }
        i = i + 1;
    }
    assert(comp_views(a@).subrange(0, b.len() as int) =~= comp_views(b@));
    true
}


/// `p` without the `/` characters it starts with.
pub open spec fn strip_leading_seps(p: Seq<char>) -> Seq<char>
    decreases p.len(),
{
    if p.len() > 0 && p[0] == '/' {
        strip_leading_seps(p.drop_first())
    } else {
        p
    }
}

/// Removes the `/` characters that `p` starts with.
pub fn strip_leading_separators(p: &str) -> (r: String)
    ensures
        r@ == strip_leading_seps(p@),
{
    let n: usize = p.unicode_len();
    let mut i: usize = 0;
    assert(p@.subrange(0, n as int) =~= p@);
    while i < n && p.get_char(i) == '/'
        invariant
            i <= n,
            n == p@.len(),
            strip_leading_seps(p@) == strip_leading_seps(p@.subrange(i as int, n as int)),
        decreases n - i,
    {
        assert(p@.subrange(i as int, n as int).drop_first() =~= p@.subrange(i + 1, n as int));
        i = i + 1;
    }
    own(p.substring_char(i, n))
}

/// `p` read from the directory `cwd`: unchanged when absolute, joined to
/// `cwd` otherwise.
pub open spec fn spec_absolute(p: Seq<char>, cwd: Seq<char>) -> Seq<char> {
    if has_root(p) {
        p
    } else {
        spec_join(cwd, p)
    }
}

/// The path `p` as read from the directory `cwd`.
pub fn absolute(p: &str, cwd: &str) -> (r: String)
    ensures
        r@ == spec_absolute(p@, cwd@),
{
    if is_absolute(p) {
        own(p)
    } else {
        join(cwd, p)
    }
}

} // verus!
