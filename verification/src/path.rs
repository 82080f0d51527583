//! Slash-delimited tag paths: trimming, splitting into segments and the
//! structural fields that follow from them.

use vstd::prelude::*;
use crate::text::join;
use vstd::string::*;

verus! {

/// The separator between the segments of a path, `/`, as a sequence of one
/// character.
pub open spec fn root() -> Seq<char> {
    seq!['/']
}

/// `s` without its leading separators.
pub open spec fn trim_start(s: Seq<char>) -> Seq<char>
    decreases s.len(),
{
    if s.len() > 0 && s.first() == '/' {
        trim_start(s.drop_first())
    } else {
        s
    }
}

/// `s` without its trailing separators.
pub open spec fn trim_end(s: Seq<char>) -> Seq<char>
    decreases s.len(),
{
    if s.len() > 0 && s.last() == '/' {
        trim_end(s.drop_last())
    } else {
        s
    }
}

/// `s` without leading and trailing separators.
pub open spec fn trimmed(s: Seq<char>) -> Seq<char> {
    trim_end(trim_start(s))
}

/// The segments of `s`: the pieces between its separators, in order. There is
/// always at least one segment, and a segment may be empty.
pub open spec fn segments(s: Seq<char>) -> Seq<Seq<char>>
    decreases s.len(),
{
    if s.len() == 0 {
        seq![Seq::<char>::empty()]
    } else {
        let before = segments(s.drop_last());
        if s.last() == '/' {
            before.push(Seq::<char>::empty())
        } else {
            before.drop_last().push(before.last().push(s.last()))
        }
    }
}

/// The segments put together again with one separator between neighbours.
pub open spec fn joined(parts: Seq<Seq<char>>) -> Seq<char> {
    join(parts, root())
}

/// Canonical form of a raw path: one separator, then the trimmed path.
pub open spec fn canonical(raw: Seq<char>) -> Seq<char> {
    root() + trimmed(raw)
}

/// Last segment of the trimmed path.
pub open spec fn name_of(raw: Seq<char>) -> Seq<char> {
    segments(trimmed(raw)).last()
}

/// One separator, then all segments of the trimmed path but the last,
/// joined.
pub open spec fn prefix_of(raw: Seq<char>) -> Seq<char> {
    root() + joined(segments(trimmed(raw)).drop_last())
}

/// Number of segments of the trimmed path.
pub open spec fn depth_of(raw: Seq<char>) -> nat {
    segments(trimmed(raw)).len()
}

/// Whether `s` is what canonicalisation produces: one separator followed by
/// a body that neither starts nor ends with a separator.
pub open spec fn is_canonical(s: Seq<char>) -> bool {
    &&& s.len() >= 1
    &&& s[0] == '/'
    &&& s.len() >= 2 ==> s[1] != '/' && s.last() != '/'
}

/// Index of the last separator in `s`, or -1 where there is none.
pub open spec fn last_separator(s: Seq<char>) -> int
    decreases s.len(),
{
    if s.len() == 0 {
        -1
    } else if s.last() == '/' {
        s.len() - 1
    } else {
        last_separator(s.drop_last())
    }
}

/// Number of separators in `s`.
pub open spec fn separator_count(s: Seq<char>) -> nat
    decreases s.len(),
{
    if s.len() == 0 {
        0
    } else {
        separator_count(s.drop_last()) + if s.last() == '/' {
            1nat
        } else {
            0nat
        }
    }
}

/// `raw` up to its last separator: the path of the parent of the tag at
/// `raw`. Empty where `raw` holds no separator.
pub open spec fn parent_of(raw: Seq<char>) -> Seq<char> {
    if last_separator(raw) >= 0 {
        raw.take(last_separator(raw))
    } else {
        Seq::<char>::empty()
    }
}

/// Trimming from the front skips exactly the leading run of separators.
pub proof fn lemma_trim_start_skips(s: Seq<char>, k: int)
    requires
        0 <= k <= s.len(),
        forall|i: int| 0 <= i < k ==> s[i] == '/',
        k < s.len() ==> s[k] != '/',
    ensures
        trim_start(s) == s.skip(k),
    decreases k,
{
    if k == 0 {
        assert(s.skip(0) == s);
    } else {
        let rest = s.drop_first();
        assert forall|i: int| 0 <= i < k - 1 implies rest[i] == '/' by {
            assert(rest[i] == s[i + 1]);
        }
        lemma_trim_start_skips(rest, k - 1);
        assert(rest.skip(k - 1) == s.skip(k));
    }
}

/// Trimming from the back keeps exactly what precedes the trailing run of
/// separators.
pub proof fn lemma_trim_end_takes(s: Seq<char>, k: int)
    requires
        0 <= k <= s.len(),
        forall|i: int| k <= i < s.len() ==> s[i] == '/',
        k > 0 ==> s[k - 1] != '/',
    ensures
        trim_end(s) == s.take(k),
    decreases s.len() - k,
{
    if k == s.len() {
        assert(s.take(k) == s);
    } else {
        let rest = s.drop_last();
        lemma_trim_end_takes(rest, k);
        assert(rest.take(k) == s.take(k));
    }
}

/// The last separator is a separator, and none follows it.
pub proof fn lemma_last_separator(s: Seq<char>)
    ensures
        -1 <= last_separator(s) < s.len(),
        last_separator(s) >= 0 ==> s[last_separator(s)] == '/',
        forall|i: int| last_separator(s) < i < s.len() ==> s[i] != '/',
    decreases s.len(),
{
    if s.len() > 0 && s.last() != '/' {
        let u = s.drop_last();
        lemma_last_separator(u);
        assert forall|i: int| last_separator(s) < i < s.len() implies s[i] != '/' by {
            if i < u.len() {
                assert(s[i] == u[i]);
            }
        }
    }
}

/// An index that holds a separator with none behind it is the last separator.
pub proof fn lemma_last_separator_is(s: Seq<char>, k: int)
    requires
        -1 <= k < s.len(),
        k >= 0 ==> s[k] == '/',
        forall|i: int| k < i < s.len() ==> s[i] != '/',
    ensures
        last_separator(s) == k,
{
    lemma_last_separator(s);
}

/// There is one segment more than there are separators.
pub proof fn lemma_segment_count(s: Seq<char>)
    ensures
        segments(s).len() == separator_count(s) + 1,
    decreases s.len(),
{
    if s.len() > 0 {
        lemma_segment_count(s.drop_last());
    }
}

/// The last segment is what follows the last separator.
pub proof fn lemma_last_segment(s: Seq<char>)
    ensures
        segments(s).last() == s.skip(last_separator(s) + 1),
    decreases s.len(),
{
    if s.len() == 0 {
        assert(segments(s).last() == s.skip(0));
    } else {
        let u = s.drop_last();
        let c = s.last();
        lemma_segment_count(u);
        lemma_last_segment(u);
        lemma_last_separator(u);
        if c == '/' {
            assert(segments(s).last() == s.skip(s.len() as int));
        } else {
            let k = last_separator(u);
            assert(segments(s).last() == segments(u).last().push(c));
            assert(u.skip(k + 1).push(c) == s.skip(k + 1));
        }
    }
}

/// Joining the segments of `s` gives `s` back.
pub proof fn lemma_join_segments(s: Seq<char>)
    ensures
        joined(segments(s)) == s,
    decreases s.len(),
{
    if s.len() > 0 {
        let u = s.drop_last();
        let c = s.last();
        let before = segments(u);
        let parts = segments(s);
        lemma_segment_count(u);
        lemma_join_segments(u);
        assert(u.push(c) == s);
        if c == '/' {
            assert(parts.drop_last() == before);
            assert(parts.last() == Seq::<char>::empty());
            assert(u + root() + Seq::<char>::empty() == s);
        } else if before.len() == 1 {
            assert(parts.len() == 1);
            assert(parts[0] == before[0].push(c));
        } else {
            assert(parts.drop_last() == before.drop_last());
            assert(parts.last() == before.last().push(c));
            let head = joined(before.drop_last()) + root();
            assert(head + before.last().push(c) == (head + before.last()).push(c));
        }
    }
}

/// The segments before the last join to what precedes the last separator.
pub proof fn lemma_join_leading_segments(s: Seq<char>)
    ensures
        joined(segments(s).drop_last()) == parent_of(s),
    decreases s.len(),
{
    if s.len() == 0 {
        assert(segments(s).drop_last().len() == 0);
    } else {
        let u = s.drop_last();
        let c = s.last();
        lemma_segment_count(u);
        lemma_last_separator(u);
        if c == '/' {
            lemma_join_segments(u);
            assert(segments(s).drop_last() == segments(u));
            assert(s.take(s.len() - 1) == u);
        } else {
            lemma_join_leading_segments(u);
            let k = last_separator(u);
            assert(segments(s).drop_last() == segments(u).drop_last());
            if k >= 0 {
                assert(u.take(k) == s.take(k));
            }
        }
    }
}

/// A body that neither starts nor ends with a separator is left as it is by
/// trimming, also behind any number of leading separators.
pub proof fn lemma_trimmed_of_canonical(s: Seq<char>)
    requires
        is_canonical(s),
    ensures
        trimmed(s) == s.skip(1),
        canonical(s) == s,
{
    if s.len() == 1 {
        lemma_trim_start_skips(s, 1);
        assert(s.skip(1).len() == 0);
    } else {
        lemma_trim_start_skips(s, 1);
        let body = s.skip(1);
        assert(body.last() == s.last());
        lemma_trim_end_takes(body, body.len() as int);
        assert(body.take(body.len() as int) == body);
    }
    assert(root() + s.skip(1) == s);
}

/// Trimming leaves a sequence that neither starts nor ends with a separator.
pub proof fn lemma_trimmed_has_no_edge_separator(s: Seq<char>)
    ensures
        trimmed(s).len() <= s.len(),
        trimmed(s).len() > 0 ==> trimmed(s).first() != '/' && trimmed(s).last() != '/',
{
    lemma_trim_start_shape(s);
    lemma_trim_end_shape(trim_start(s));
}

proof fn lemma_trim_start_shape(s: Seq<char>)
    ensures
        trim_start(s).len() <= s.len(),
        trim_start(s).len() > 0 ==> trim_start(s).first() != '/',
        trim_start(s) == s.skip(s.len() - trim_start(s).len()),
    decreases s.len(),
{
    if s.len() > 0 && s.first() == '/' {
        let rest = s.drop_first();
        lemma_trim_start_shape(rest);
        assert(rest.skip(rest.len() - trim_start(rest).len()) == s.skip(
            s.len() - trim_start(rest).len(),
        ));
    } else {
        assert(s.skip(0) == s);
    }
}

proof fn lemma_trim_end_shape(s: Seq<char>)
    ensures
        trim_end(s).len() <= s.len(),
        trim_end(s).len() > 0 ==> trim_end(s).last() != '/',
        trim_end(s) == s.take(trim_end(s).len() as int),
    decreases s.len(),
{
    if s.len() > 0 && s.last() == '/' {
        let rest = s.drop_last();
        lemma_trim_end_shape(rest);
        assert(rest.take(trim_end(rest).len() as int) == s.take(trim_end(rest).len() as int));
    } else {
        assert(s.take(s.len() as int) == s);
    }
}

/// The canonical form of any raw path is canonical.
pub proof fn lemma_canonical_is_canonical(raw: Seq<char>)
    ensures
        is_canonical(canonical(raw)),
{
    lemma_trimmed_has_no_edge_separator(raw);
    let t = trimmed(raw);
    let c = canonical(raw);
    assert(c[0] == '/');
    if t.len() > 0 {
        assert(c[1] == t.first());
        assert(c.last() == t.last());
    }
}

/// The structural fields that a raw path determines.
#[derive(Debug, Clone, PartialEq, Eq)]
pub struct PathFields {
    /// Canonical path: one separator, then the trimmed raw path.
    pub path: String,
    /// One separator, then every segment but the last.
    pub prefix: String,
    /// The last segment.
    pub name: String,
    /// The number of segments.
    pub depth: usize,
}

/// The characters of `s`, in order.
pub fn chars_of(s: &str) -> (v: Vec<char>)
    ensures
        v@ == s@,
{
    let mut v: Vec<char> = Vec::new();
    for c in it: s.chars()
        invariant
            it.seq() == s@,
            v@ == s@.take(it.index() as int),
    {
        assert(s@.take(it.index() + 1) == s@.take(it.index() as int).push(c));
        v.push(c);
    }
    assert(s@.take(s@.len() as int) == s@);
    v
}

/// Index of the first character of `v` that is no separator, or the length
/// of `v` where there is none.
fn leading_separators(v: &Vec<char>) -> (k: usize)
    ensures
        k <= v.len(),
        trim_start(v@) == v@.skip(k as int),
{
    let mut k: usize = 0;
    while k < v.len() && v[k] == '/'
        invariant
            k <= v.len(),
            forall|i: int| 0 <= i < k ==> v@[i] == '/',
        decreases v.len() - k,
    {
        k = k + 1;
    }
    proof {
        lemma_trim_start_skips(v@, k as int);
    }
    k
}

/// Index behind the last character of `v` at or after `start` that is no
/// separator, or `start` where there is none.
fn trailing_boundary(v: &Vec<char>, start: usize) -> (k: usize)
    requires
        start <= v.len(),
    ensures
        start <= k <= v.len(),
        trim_end(v@.skip(start as int)) == v@.subrange(start as int, k as int),
{
    let mut k: usize = v.len();
    while k > start && v[k - 1] == '/'
        invariant
            start <= k <= v.len(),
            forall|i: int| k <= i < v.len() ==> v@[i] == '/',
        decreases k,
    {
        k = k - 1;
    }
    proof {
        let rest = v@.skip(start as int);
        assert forall|i: int| k - start <= i < rest.len() implies rest[i] == '/' by {
            assert(rest[i] == v@[i + start]);
        }
        lemma_trim_end_takes(rest, k - start);
        assert(rest.take(k - start) == v@.subrange(start as int, k as int));
    }
    k
}

/// Counts the separators of `v` between `start` and `end`, and finds the
/// index behind the last of them (`start` where there is none).
fn scan_separators(v: &Vec<char>, start: usize, end: usize) -> (r: (usize, usize))
    requires
        start <= end <= v.len(),
    ensures
        r.0 == separator_count(v@.subrange(start as int, end as int)),
        r.0 <= end - start,
        start <= r.1 <= end,
        r.1 - start == last_separator(v@.subrange(start as int, end as int)) + 1,
{
    let mut count: usize = 0;
    let mut behind: usize = start;
    let mut i: usize = start;
    while i < end
        invariant
            start <= i <= end <= v.len(),
            count == separator_count(v@.subrange(start as int, i as int)),
            count <= i - start,
            start <= behind <= i,
            behind - start == last_separator(v@.subrange(start as int, i as int)) + 1,
        decreases end - i,
    {
        proof {
            let next = v@.subrange(start as int, i + 1);
            assert(next.drop_last() == v@.subrange(start as int, i as int));
            assert(next.last() == v@[i as int]);
        }
        if v[i] == '/' {
            count = count + 1;
            behind = i + 1;
        }
        i = i + 1;
    }
    (count, behind)
}

/// Where the parts of a raw path lie among its characters.
struct Shape {
    /// Index of the first character of the trimmed path.
    start: usize,
    /// Index behind the last character of the trimmed path.
    end: usize,
    /// Index of the first character of the last segment.
    behind: usize,
    /// Number of separators inside the trimmed path.
    count: usize,
}

/// Finds the parts of the raw path `v`.
fn shape_of(v: &Vec<char>) -> (shape: Shape)
    ensures
        shape.start <= shape.behind <= shape.end <= v.len(),
        v@.subrange(shape.start as int, shape.end as int) == trimmed(v@),
        shape.count + 1 == depth_of(v@),
        shape.count < usize::MAX,
        v@.subrange(shape.behind as int, shape.end as int) == name_of(v@),
        shape.behind > shape.start ==> root() + v@.subrange(
            shape.start as int,
            shape.behind - 1,
        ) == prefix_of(v@),
        shape.behind == shape.start ==> root() == prefix_of(v@),
{
    let start = leading_separators(v);
    let end = trailing_boundary(v, start);
    let (count, behind) = scan_separators(v, start, end);
    proof {
        let body = v@.subrange(start as int, end as int);
        assert(trimmed(v@) == body);
        lemma_segment_count(body);
        lemma_last_segment(body);
        lemma_join_leading_segments(body);
        lemma_last_separator(body);
        lemma_trimmed_has_no_edge_separator(v@);
        if count > 0 {
            assert(body.last() != '/');
            assert(separator_count(body) == separator_count(body.drop_last()));
            lemma_separator_count_bound(body.drop_last());
        }
        assert(v@.subrange(behind as int, end as int) == body.skip(last_separator(body) + 1));
        if behind > start {
            assert(v@.subrange(start as int, behind - 1) == body.take(last_separator(body)));
        } else {
            assert(root() + Seq::<char>::empty() == root());
        }
    }
    Shape { start, end, behind, count }
}

/// Derives the structural fields of a raw path: the path is trimmed of
/// leading and trailing separators and split at the separators that remain.
pub fn derive_fields(raw: &str) -> (fields: PathFields)
    ensures
        fields.path@ == canonical(raw@),
        fields.prefix@ == prefix_of(raw@),
        fields.name@ == name_of(raw@),
        fields.depth == depth_of(raw@),
{
    let v = chars_of(raw);
    let shape = shape_of(&v);
    proof {
        reveal_strlit("/");
        assert("/"@ == root());
    }
    let mut path = String::from_str("/");
    path.append(raw.substring_char(shape.start, shape.end));
    let mut prefix = String::from_str("/");
    if shape.behind > shape.start {
        prefix.append(raw.substring_char(shape.start, shape.behind - 1));
    }
    let name = String::from_str(raw.substring_char(shape.behind, shape.end));
    PathFields { path, prefix, name, depth: shape.count + 1 }
}

/// The path of the parent of the tag at `path`: `path` up to its last
/// separator, or the empty path where `path` holds no separator.
pub fn parent_path(path: &str) -> (parent: String)
    ensures
        parent@ == parent_of(path@),
{
    let v = chars_of(path);
    let (_, behind) = scan_separators(&v, 0, v.len());
    proof {
        assert(v@.subrange(0, v.len() as int) == path@);
    }
    if behind > 0 {
        proof {
            assert(path@.subrange(0, behind - 1) == path@.take(behind - 1));
        }
        String::from_str(path.substring_char(0, behind - 1))
    } else {
        String::new()
    }
}

/// There are no more separators in a sequence than characters.
pub proof fn lemma_separator_count_bound(s: Seq<char>)
    ensures
        separator_count(s) <= s.len(),
    decreases s.len(),
{
    if s.len() > 0 {
        lemma_separator_count_bound(s.drop_last());
    }
}

/// Deriving is idempotent: the canonical path of any raw path derives to the
/// same canonical path, prefix, name and depth as the raw path itself.
pub proof fn derive_is_idempotent(raw: Seq<char>)
    ensures
        canonical(canonical(raw)) == canonical(raw),
        prefix_of(canonical(raw)) == prefix_of(raw),
        name_of(canonical(raw)) == name_of(raw),
        depth_of(canonical(raw)) == depth_of(raw),
{
    lemma_canonical_is_canonical(raw);
    lemma_trimmed_of_canonical(canonical(raw));
    assert(canonical(raw).skip(1) == trimmed(raw));
}

/// A path that is already canonical derives to itself.
pub proof fn canonical_path_is_kept(path: Seq<char>)
    requires
        is_canonical(path),
    ensures
        canonical(path) == path,
{
    lemma_trimmed_of_canonical(path);
}

/// The depth is the number of segments, which is at least one and one more
/// than the number of separators inside the trimmed path.
pub proof fn depth_counts_segments(raw: Seq<char>)
    ensures
        depth_of(raw) == segments(trimmed(raw)).len(),
        depth_of(raw) == separator_count(trimmed(raw)) + 1,
        depth_of(raw) >= 1,
{
    lemma_segment_count(trimmed(raw));
}

/// A path of a single segment has the bare separator as its prefix, and its
/// name is the whole trimmed path.
pub proof fn single_segment_prefix_is_root(raw: Seq<char>)
    requires
        depth_of(raw) == 1,
    ensures
        prefix_of(raw) == root(),
        name_of(raw) == trimmed(raw),
        canonical(raw) == prefix_of(raw) + name_of(raw),
{
    let parts = segments(trimmed(raw));
    lemma_join_segments(trimmed(raw));
    assert(parts.drop_last().len() == 0);
    assert(root() + Seq::<char>::empty() == root());
}

/// A path of several segments is its prefix, one separator and its name.
pub proof fn path_is_prefix_then_name(raw: Seq<char>)
    requires
        depth_of(raw) > 1,
    ensures
        canonical(raw) == prefix_of(raw) + root() + name_of(raw),
{
    let parts = segments(trimmed(raw));
    lemma_join_segments(trimmed(raw));
    assert(joined(parts) == joined(parts.drop_last()) + root() + parts.last());
    assert(root() + (joined(parts.drop_last()) + root() + parts.last()) == root() + joined(
        parts.drop_last(),
    ) + root() + parts.last());
}

/// The parent of a canonical path of several segments is its prefix.
pub proof fn parent_of_canonical_is_prefix(raw: Seq<char>)
    requires
        depth_of(raw) > 1,
    ensures
        parent_of(canonical(raw)) == prefix_of(raw),
{
    let t = trimmed(raw);
    let c = canonical(raw);
    lemma_segment_count(t);
    lemma_join_leading_segments(t);
    lemma_last_separator(t);
    lemma_separator_count_positive(t);
    let k = last_separator(t);
    assert(k >= 0);
    assert(c[k + 1] == t[k]);
    assert forall|i: int| k + 1 < i < c.len() implies c[i] != '/' by {
        assert(c[i] == t[i - 1]);
    }
    lemma_last_separator_is(c, k + 1);
    assert(c.take(k + 1) == root() + t.take(k));
}

/// A sequence without a last separator holds no separator at all.
pub proof fn lemma_separator_count_positive(s: Seq<char>)
    ensures
        separator_count(s) > 0 <==> last_separator(s) >= 0,
    decreases s.len(),
{
    if s.len() > 0 {
        lemma_separator_count_positive(s.drop_last());
    }
}

} // verus!
