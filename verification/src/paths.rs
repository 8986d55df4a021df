//! Normalization and comparison of slash-separated paths.
//!
//! A requested URL path matches the configured virtual path exactly when the
//! two normalize to the same form: the same leading-slash flag and the same
//! sequence of segments, where empty segments collapse and a `.` segment is
//! kept only at the front of a relative path.

use vstd::prelude::*;

verus! {

/// The pieces of `s` between `/` separators, empty pieces included:
/// the pieces of `a//b` are `a`, the empty piece, and `b`; the empty
/// string has one empty piece.
pub open spec fn pieces(s: Seq<char>) -> Seq<Seq<char>>
    decreases s.len(),
{
    if s.len() == 0 {
        seq![Seq::<char>::empty()]
    } else if s.last() == '/' {
        pieces(s.drop_last()).push(Seq::<char>::empty())
    } else {
        let p = pieces(s.drop_last());
        p.update(p.len() - 1, p.last().push(s.last()))
    }
}

/// Every string, the empty one included, has at least one piece.
pub proof fn lemma_pieces_nonempty(s: Seq<char>)
    ensures
        pieces(s).len() >= 1,
    decreases s.len(),
{
    if s.len() > 0 {
        lemma_pieces_nonempty(s.drop_last());
    }
}

/// Splitting a concatenation: the two halves' pieces stand unchanged but
/// for the piece at the seam, which is the last piece of `x` glued to the
/// first piece of `t`.
proof fn lemma_pieces_append(x: Seq<char>, t: Seq<char>)
    ensures
        pieces(x + t) == pieces(x).drop_last() + seq![pieces(x).last() + pieces(t).first()]
            + pieces(t).drop_first(),
    decreases t.len(),
{
    lemma_pieces_nonempty(x);
    lemma_pieces_nonempty(t);
    if t.len() == 0 {
        assert(x + t =~= x);
        assert(pieces(x).last() + pieces(t).first() =~= pieces(x).last());
        assert(pieces(x).drop_last() + seq![pieces(x).last()] + pieces(t).drop_first()
            =~= pieces(x));
    } else {
        let t0 = t.drop_last();
        let c = t.last();
        lemma_pieces_append(x, t0);
        lemma_pieces_nonempty(t0);
        let p = pieces(x + t0);
        let q = pieces(t0);
        assert((x + t).drop_last() =~= x + t0);
        assert((x + t).last() == c);
        if c == '/' {
            assert(pieces(x + t) == p.push(Seq::<char>::empty()));
            assert(pieces(t) == q.push(Seq::<char>::empty()));
            assert(pieces(t).first() == q.first());
            assert(pieces(t).drop_first() =~= q.drop_first().push(Seq::<char>::empty()));
            assert(pieces(x + t) =~= pieces(x).drop_last()
                + seq![pieces(x).last() + pieces(t).first()] + pieces(t).drop_first());
        } else {
            assert(pieces(x + t) == p.update(p.len() - 1, p.last().push(c)));
            assert(pieces(t) == q.update(q.len() - 1, q.last().push(c)));
            if q.len() == 1 {
                assert(p.last() == pieces(x).last() + q.first());
                assert((pieces(x).last() + q.first()).push(c)
                    =~= pieces(x).last() + q.first().push(c));
                assert(pieces(t).first() == q.first().push(c));
                assert(pieces(t).drop_first() =~= q.drop_first());
                assert(pieces(x + t) =~= pieces(x).drop_last()
                    + seq![pieces(x).last() + pieces(t).first()] + pieces(t).drop_first());
            } else {
                assert(pieces(t).first() == q.first());
                assert(p.last() == q.last());
                assert(pieces(t).drop_first()
                    =~= q.drop_first().update(q.len() - 2, q.last().push(c)));
                assert(pieces(x + t) =~= pieces(x).drop_last()
                    + seq![pieces(x).last() + pieces(t).first()] + pieces(t).drop_first());
            }
        }
    }
}

/// A path is absolute when it starts with a separator.
pub open spec fn is_absolute(s: Seq<char>) -> bool {
    s.len() > 0 && s[0] == '/'
}

/// The one-character segment `.`, which names the current directory.
pub open spec fn dot_segment() -> Seq<char> {
    seq!['.']
}

/// A relative path whose first piece is `.` keeps that piece as its leading
/// segment; everywhere else `.` segments are dropped.
pub open spec fn keeps_leading_dot(s: Seq<char>) -> bool {
    s.len() > 0 && s[0] == '.' && (s.len() == 1 || s[1] == '/')
}

/// A piece survives normalization when it is neither empty nor `.`.
pub open spec fn is_kept_segment(p: Seq<char>) -> bool {
    p.len() > 0 && p != dot_segment()
}

/// The predicate of [`is_kept_segment`] as a value, for use with `filter`.
pub open spec fn kept_pred() -> spec_fn(Seq<char>) -> bool {
    |p: Seq<char>| is_kept_segment(p)
}

/// The segments of `s` after normalization.
pub open spec fn norm_segments(s: Seq<char>) -> Seq<Seq<char>> {
    let kept = pieces(s).filter(kept_pred());
    if keeps_leading_dot(s) {
        seq![dot_segment()] + kept
    } else {
        kept
    }
}

/// The normalized form of a path: whether it is absolute, and its segments.
/// Two path strings name the same location exactly when their normalized
/// forms are equal.
#[verifier::ext_equal]
pub struct PathModel {
    pub absolute: bool,
    pub segments: Seq<Seq<char>>,
}

/// The normalized form of the path string `s`.
pub open spec fn norm_path(s: Seq<char>) -> PathModel {
    PathModel { absolute: is_absolute(s), segments: norm_segments(s) }
}

/// The string the configured directory and filename join to: the directory,
/// a separator where one is missing, then the filename. An absolute filename
/// stands alone, and an empty directory adds nothing.
pub open spec fn joined(dir: Seq<char>, file: Seq<char>) -> Seq<char> {
    if is_absolute(file) {
        file
    } else if dir.len() == 0 {
        file
    } else if dir.last() == '/' {
        dir + file
    } else {
        dir + seq!['/'] + file
    }
}

/// A normalized path held as executable data.
pub struct NormPath {
    pub absolute: bool,
    pub segments: Vec<Vec<char>>,
}

impl View for NormPath {
    type V = PathModel;

    open spec fn view(&self) -> PathModel {
        PathModel { absolute: self.absolute, segments: self.segments.deep_view() }
    }
}

fn copy_segment(p: &Vec<char>) -> (r: Vec<char>)
    ensures
        r@ == p@,
        r.deep_view() == p.deep_view(),
{
    let mut r: Vec<char> = Vec::new();
    let mut k: usize = 0;
    while k < p.len()
        invariant
            k <= p.len(),
            r@ == p@.subrange(0, k as int),
        decreases p.len() - k,
    {
        r.push(p[k]);
        k = k + 1;
        proof {
            assert(r@ =~= p@.subrange(0, k as int));
        }
    }
    proof {
        assert(p@.subrange(0, p.len() as int) =~= p@);
        assert(r.deep_view() =~= p.deep_view());
    }
    r
}

fn is_kept(p: &Vec<char>) -> (r: bool)
    ensures
        r == is_kept_segment(p.deep_view()),
{
    proof {
        assert(p.deep_view() =~= p@);
    }
    if p.len() == 0 {
        false
    } else if p.len() == 1 && p[0] == '.' {
        proof {
            assert(p@ =~= dot_segment());
        }
        false
    } else {
        proof {
            if p@ == dot_segment() {
                assert(p@.len() == 1 && p@[0] == '.');
            }
        }
        true
    }
}

fn seg_eq(a: &Vec<char>, b: &Vec<char>) -> (r: bool)
    ensures
        r == (a.deep_view() == b.deep_view()),
{
    proof {
        assert(a.deep_view() =~= a@);
        assert(b.deep_view() =~= b@);
    }
    if a.len() != b.len() {
        return false;
    }
    let mut k: usize = 0;
    while k < a.len()
        invariant
            k <= a.len(),
            a.len() == b.len(),
            a.deep_view() == a@,
            b.deep_view() == b@,
            forall|m: int| 0 <= m < k ==> a@[m] == b@[m],
        decreases a.len() - k,
    {
        if a[k] != b[k] {
            proof {
                assert(a@ != b@) by {
                    if a@ == b@ {
                        assert(a@[k as int] == b@[k as int]);
                    }
                }
            }
            return false;
        }
        k = k + 1;
    }
    proof {
        assert(a@ =~= b@);
    }
    true
}

impl NormPath {
    /// Whether two normalized paths are the same location, that is, whether
    /// their models are equal.
    pub fn equals(&self, other: &NormPath) -> (r: bool)
        ensures
            r == (self@ == other@),
    {
        if self.absolute != other.absolute {
            proof {
                assert(self@ != other@) by {
                    if self@ == other@ {
                        assert(self@.absolute == other@.absolute);
                    }
                }
            }
            return false;
        }
        if self.segments.len() != other.segments.len() {
            proof {
                assert(self@ != other@) by {
                    if self@ == other@ {
                        assert(self@.segments.len() == other@.segments.len());
                    }
                }
            }
            return false;
        }
        let mut k: usize = 0;
        while k < self.segments.len()
            invariant
                k <= self.segments.len(),
                self.segments.len() == other.segments.len(),
                self.absolute == other.absolute,
                forall|m: int| 0 <= m < k
                    ==> self.segments.deep_view()[m] == other.segments.deep_view()[m],
            decreases self.segments.len() - k,
        {
            if !seg_eq(&self.segments[k], &other.segments[k]) {
                proof {
                    assert(self@ != other@) by {
                        if self@ == other@ {
                            assert(self@.segments[k as int] == other@.segments[k as int]);
                        }
                    }
                }
                return false;
            }
            k = k + 1;
        }
        proof {
            assert(self@.segments =~= other@.segments);
            assert(self@ =~= other@);
        }
        true
    }
}

/// Writing the virtual path as directory, separator, filename always
/// normalizes to the same location as [`joined`], whether or not the
/// directory already carries a trailing separator.
pub proof fn lemma_joined_matches_slash_join(dir: Seq<char>, file: Seq<char>)
    requires
        dir.len() > 0,
        !is_absolute(file),
    ensures
        norm_path(dir + seq!['/'] + file) == norm_path(joined(dir, file)),
{
    if dir.last() == '/' {
        let sep = seq!['/'];
        let dir2 = dir + sep;
        let s1 = dir + file;
        let s2 = dir2 + file;
        lemma_pieces_nonempty(dir);
        lemma_pieces_nonempty(file);
        lemma_pieces_append(dir, file);
        lemma_pieces_append(dir2, file);

        // The last piece of a string that ends in a separator is empty.
        assert(pieces(dir) == pieces(dir.drop_last()).push(Seq::<char>::empty()));
        assert(pieces(dir).last() == Seq::<char>::empty());
        assert(dir2.last() == '/');
        assert(dir2.drop_last() =~= dir);
        assert(pieces(dir2) == pieces(dir).push(Seq::<char>::empty()));

        let pf = pieces(file);
        let glue = seq![pf.first()];
        assert(Seq::<char>::empty() + pf.first() =~= pf.first());
        assert(pieces(s1) =~= pieces(dir).drop_last() + glue + pf.drop_first());
        assert(pieces(dir2).drop_last() =~= pieces(dir));
        assert(pieces(s2) =~= pieces(dir) + glue + pf.drop_first());

        // An empty last piece never survives the filter.
        assert(pieces(dir).drop_last().push(Seq::<char>::empty()) =~= pieces(dir));
        assert(pieces(dir).filter(kept_pred()) == pieces(dir).drop_last().filter(kept_pred()))
            by {
            reveal(Seq::filter);
        }
        Seq::<Seq<char>>::filter_distributes_over_add(
            pieces(dir).drop_last() + glue,
            pf.drop_first(),
            kept_pred(),
        );
        Seq::<Seq<char>>::filter_distributes_over_add(
            pieces(dir).drop_last(),
            glue,
            kept_pred(),
        );
        Seq::<Seq<char>>::filter_distributes_over_add(
            pieces(dir) + glue,
            pf.drop_first(),
            kept_pred(),
        );
        Seq::<Seq<char>>::filter_distributes_over_add(pieces(dir), glue, kept_pred());
        assert((pieces(dir).drop_last() + glue) + pf.drop_first() =~= pieces(s1));
        assert((pieces(dir) + glue) + pf.drop_first() =~= pieces(s2));
        assert(pieces(s1).filter(kept_pred()) == pieces(s2).filter(kept_pred()));

        // Both strings begin with the directory's characters, so they agree
        // on absoluteness and on a kept leading dot.
        assert(s1[0] == dir[0]);
        assert(s2[0] == dir[0]);
        assert(is_absolute(s1) == is_absolute(s2));
        assert(keeps_leading_dot(s1) == keeps_leading_dot(s2)) by {
            if dir[0] == '.' {
                assert(dir.len() >= 2);
                assert(s1[1] == dir[1]);
                assert(s2[1] == dir[1]);
            }
        }
        assert(norm_segments(s1) == norm_segments(s2));
        assert(norm_path(s2) =~~= norm_path(joined(dir, file)));
    }
}

/// Join the configured directory and filename into one path string, as
/// [`joined`] describes.
pub fn join_paths(dir: &String, file: &String) -> (r: String)
    ensures
        r@ == joined(dir@, file@),
{
    let file_len: usize = file.as_str().unicode_len();
    if file_len > 0 && file.as_str().get_char(0) == '/' {
        return file.clone();
    }
    let dir_len: usize = dir.as_str().unicode_len();
    if dir_len == 0 {
        return file.clone();
    }
    if dir.as_str().get_char(dir_len - 1) == '/' {
        dir.clone().concat(file.as_str())
    } else {
        let with_sep = dir.clone().concat("/");
        proof {
            reveal_strlit("/");
            assert(with_sep@ =~= dir@ + seq!['/']);
        }
        with_sep.concat(file.as_str())
    }
}

/// Normalize the path string `s`: record whether it is absolute, split it on
/// separators, drop empty and `.` pieces, and keep a leading `.` of a
/// relative path.
pub fn normalize(s: &str) -> (r: NormPath)
    ensures
        r@ == norm_path(s@),
{
    let n: usize = s.unicode_len();
    let absolute: bool = n > 0 && s.get_char(0) == '/';
    let keeps_dot: bool = n > 0 && s.get_char(0) == '.' && (n == 1 || s.get_char(1) == '/');

    let mut ps: Vec<Vec<char>> = Vec::new();
    ps.push(Vec::new());
    proof {
        assert(s@.subrange(0, 0) =~= Seq::<char>::empty());
        assert(ps.deep_view() =~~= pieces(s@.subrange(0, 0)));
    }
    let mut i: usize = 0;
    while i < n
        invariant
            i <= n,
            n == s@.len(),
            ps.len() >= 1,
            ps.deep_view() == pieces(s@.subrange(0, i as int)),
        decreases n - i,
    {
        let c = s.get_char(i);
        proof {
            assert(s@.subrange(0, i as int + 1).drop_last() =~= s@.subrange(0, i as int));
            assert(s@.subrange(0, i as int + 1).last() == s@[i as int]);
        }
        if c == '/' {
            ps.push(Vec::new());
            proof {
                assert(ps.deep_view() =~~= pieces(s@.subrange(0, i as int + 1)));
            }
        } else {
            let mut last_piece = ps.pop().unwrap();
            last_piece.push(c);
            ps.push(last_piece);
            proof {
                assert(ps.deep_view() =~~= pieces(s@.subrange(0, i as int + 1)));
            }
        }
        i = i + 1;
    }
    proof {
        assert(s@.subrange(0, n as int) =~= s@);
    }

    let ghost prefix0: Seq<Seq<char>> = if keeps_dot {
        seq![dot_segment()]
    } else {
        Seq::<Seq<char>>::empty()
    };
    let mut segs: Vec<Vec<char>> = Vec::new();
    if keeps_dot {
        let mut d: Vec<char> = Vec::new();
        d.push('.');
        segs.push(d);
    }
    proof {
        assert(ps.deep_view().subrange(0, 0) =~= Seq::<Seq<char>>::empty());
        assert(segs.deep_view() =~~= prefix0 + ps.deep_view().subrange(0, 0).filter(kept_pred()));
    }
    let mut j: usize = 0;
    while j < ps.len()
        invariant
            j <= ps.len(),
            segs.deep_view() == prefix0 + ps.deep_view().subrange(0, j as int).filter(kept_pred()),
        decreases ps.len() - j,
    {
        let ghost pre = ps.deep_view().subrange(0, j as int);
        let ghost cur = ps.deep_view().subrange(0, j as int + 1);
        let ghost elem = ps.deep_view()[j as int];
        proof {
            assert(cur.drop_last() =~= pre);
            assert(cur.last() == elem);
            assert(kept_pred()(elem) == is_kept_segment(elem));
            assert(elem == ps@[j as int].deep_view());
            if is_kept_segment(elem) {
                assert(cur.filter(kept_pred()) == pre.filter(kept_pred()).push(elem)) by {
                    reveal(Seq::filter);
                }
            } else {
                assert(cur.filter(kept_pred()) == pre.filter(kept_pred())) by {
                    reveal(Seq::filter);
                }
            }
        }
        if is_kept(&ps[j]) {
            let piece = copy_segment(&ps[j]);
            let ghost segs_deep0 = segs.deep_view();
            segs.push(piece);
            proof {
                assert(piece.deep_view() == elem);
                assert(segs.deep_view() =~~= segs_deep0.push(elem));
                assert(segs_deep0.push(elem)
                    =~~= prefix0 + pre.filter(kept_pred()).push(elem));
                assert(segs.deep_view() =~~= prefix0 + cur.filter(kept_pred()));
            }
        } else {
            proof {
                assert(segs.deep_view() =~~= prefix0 + cur.filter(kept_pred()));
            }
        }
        j = j + 1;
    }
    proof {
        assert(ps.deep_view().subrange(0, ps.len() as int) =~= ps.deep_view());
        assert(segs.deep_view() =~~= norm_segments(s@));
    }
    NormPath { absolute, segments: segs }
}

} // verus!
