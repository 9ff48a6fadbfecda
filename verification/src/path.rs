//! Resource path normalization.
//!
//! A request path is split into `/`-delimited segments. Every segment that
//! consists entirely of decimal digits is replaced by the singular form of
//! the segment before it followed by `Id` (so `posts` followed by `42`
//! becomes `postId`); all other segments pass through unchanged. The first
//! segment has no predecessor and is always left unchanged. The segments are
//! then rejoined with `/`.
//!
//! Singularization is the pluralizer's. Its rule tables live in process
//! globals that a host may extend at runtime, so what it returns for a word
//! is not a function of the word alone; the contracts here therefore never
//! equate two singularizer calls. `is_normalization_of` says instead that
//! the result was assembled from *some* answers, one per replaced segment,
//! each `/`-free and empty for an empty predecessor — which is all that
//! holds of every answer. The singularizer is asked only about ASCII
//! predecessors (its case-restoring rules slice words at byte positions
//! that are character boundaries only then); a non-ASCII predecessor stands
//! as its own singular.

use vstd::prelude::*;
use vstd::string::*;

verus! {

/// A decimal digit.
pub open spec fn is_digit_char(c: char) -> bool {
    '0' <= c && c <= '9'
}

/// A segment that parses entirely as a non-negative integer: non-empty and
/// made of decimal digits only.
pub open spec fn seg_is_numeric(s: Seq<char>) -> bool {
    s.len() > 0 && forall|i: int| 0 <= i < s.len() ==> is_digit_char(#[trigger] s[i])
}

/// Splitting a character sequence at every `/`. The empty sequence splits
/// into one empty segment, as `str::split` does.
pub open spec fn split_slash(s: Seq<char>) -> Seq<Seq<char>>
    decreases s.len(),
{
    if s.len() == 0 {
        seq![Seq::<char>::empty()]
    } else if s.last() == '/' {
        split_slash(s.drop_last()).push(Seq::<char>::empty())
    } else {
        let p = split_slash(s.drop_last());
        p.drop_last().push(p.last().push(s.last()))
    }
}

/// Joining segments with `/` between them.
pub open spec fn join_slash(ss: Seq<Seq<char>>) -> Seq<char>
    decreases ss.len(),
{
    if ss.len() == 0 {
        Seq::<char>::empty()
    } else if ss.len() == 1 {
        ss[0]
    } else {
        join_slash(ss.drop_last()) + seq!['/'] + ss.last()
    }
}

/// The segments after normalization, given the substitute answered for each
/// replaced position: a numeric segment with a predecessor becomes that
/// position's substitute followed by `Id`; every other segment is kept.
pub open spec fn norm_segs_with(ss: Seq<Seq<char>>, subs: Seq<Seq<char>>) -> Seq<Seq<char>> {
    Seq::new(
        ss.len(),
        |i: int|
            if 0 < i && seg_is_numeric(ss[i]) {
                subs[i] + "Id"@
            } else {
                ss[i]
            },
    )
}

/// What holds of the substitute at every replaced position, whatever the
/// singularizer answered: it holds no `/` (none goes in, none comes out),
/// and an empty predecessor has an empty singular.
pub open spec fn valid_substitutes(ss: Seq<Seq<char>>, subs: Seq<Seq<char>>) -> bool {
    &&& subs.len() == ss.len()
    &&& forall|i: int|
        0 < i < ss.len() && seg_is_numeric(ss[i]) ==> {
            &&& !(#[trigger] subs[i]).contains('/')
            &&& (ss[i - 1].len() == 0 ==> subs[i].len() == 0)
        }
}

/// The result is a normalization of the path: for some valid substitutes —
/// the singular forms the singularizer answered on this run — it is the
/// path's segments, numeric ones after the first replaced by their
/// substitute followed by `Id`, rejoined with `/`.
pub open spec fn is_normalization_of(p: Seq<char>, r: Seq<char>) -> bool {
    exists|subs: Seq<Seq<char>>|
        #[trigger] valid_substitutes(split_slash(p), subs) && r == join_slash(
            norm_segs_with(split_slash(p), subs),
        )
}

/// Relies on `pluralizer::pluralize` with count `1` and no count prefix: it
/// rewrites the word to its singular form through the crate's rule tables.
/// Those tables are process globals that a host may extend at runtime, so
/// nothing here equates two calls; the clauses state only what every call
/// returns. With the built-in tables an empty word comes back unchanged,
/// and no rule puts a `/` into the result of a `/`-free word: rules only
/// case-fold and recombine parts of the word with fixed alphabetic endings.
/// The word must be ASCII: the case-restoring step slices the word and its
/// regex captures at byte index one, which panics on a word whose early
/// bytes belong to a multi-byte character.
#[verifier::external_body]
fn singularize(word: &str) -> (r: String)
    requires
        is_ascii(word),
    ensures
        word@.len() == 0 ==> r@ == word@,
        !word@.contains('/') ==> !r@.contains('/'),
{
    pluralizer::pluralize(word, 1, false)
}

/// A split never yields an empty segment list.
pub proof fn lemma_split_len(s: Seq<char>)
    ensures
        split_slash(s).len() >= 1,
    decreases s.len(),
{
    if s.len() > 0 {
        lemma_split_len(s.drop_last());
    }
}

/// No segment of a split contains `/`.
pub proof fn lemma_split_no_slash(s: Seq<char>)
    ensures
        forall|j: int|
            0 <= j < split_slash(s).len() ==> !(#[trigger] split_slash(s)[j]).contains('/'),
    decreases s.len(),
{
    if s.len() == 0 {
        assert forall|j: int| 0 <= j < split_slash(s).len() implies !(
        #[trigger] split_slash(s)[j]).contains('/') by {
            assert(split_slash(s)[j] =~= Seq::<char>::empty());
        }
    } else {
        lemma_split_no_slash(s.drop_last());
        lemma_split_len(s.drop_last());
        let p = split_slash(s.drop_last());
        if s.last() == '/' {
            assert forall|j: int| 0 <= j < split_slash(s).len() implies !(
            #[trigger] split_slash(s)[j]).contains('/') by {
                if j < p.len() {
                    assert(split_slash(s)[j] == p[j]);
                } else {
                    assert(split_slash(s)[j] =~= Seq::<char>::empty());
                }
            }
        } else {
            let e = p.last().push(s.last());
            assert(!p.last().contains('/'));
            assert forall|i: int| 0 <= i < e.len() implies e[i] != '/' by {
                if i < e.len() - 1 {
                    assert(e[i] == p.last()[i]);
                    assert(!p.last().contains('/'));
                }
            }
            assert forall|j: int| 0 <= j < split_slash(s).len() implies !(
            #[trigger] split_slash(s)[j]).contains('/') by {
                if j < p.len() - 1 {
                    assert(split_slash(s)[j] == p[j]);
                } else {
                    assert(split_slash(s)[j] == e);
                }
            }
        }
    }
}

/// Joining undoes splitting.
pub proof fn lemma_join_of_split(s: Seq<char>)
    ensures
        join_slash(split_slash(s)) == s,
    decreases s.len(),
{
    if s.len() > 0 {
        lemma_join_of_split(s.drop_last());
        lemma_split_len(s.drop_last());
        let p = split_slash(s.drop_last());
        if s.last() == '/' {
            assert(split_slash(s) == p.push(Seq::<char>::empty()));
            assert(split_slash(s).drop_last() =~= p);
            assert(join_slash(split_slash(s)) =~= s);
        } else {
            let q = p.drop_last().push(p.last().push(s.last()));
            assert(split_slash(s) == q);
            if p.len() == 1 {
                assert(q.len() == 1);
                assert(q[0] == p[0].push(s.last()));
                assert(p[0] == join_slash(p));
                assert(join_slash(p) == s.drop_last());
                assert(q[0] =~= s.drop_last().push(s.last()));
                assert(s.drop_last().push(s.last()) =~= s);
                assert(join_slash(q) == q[0]);
            } else {
                assert(q.drop_last() =~= p.drop_last());
                assert(q.last() == p.last().push(s.last()));
                assert(join_slash(p) == join_slash(p.drop_last()) + seq!['/'] + p.last());
                assert(join_slash(q) == join_slash(p.drop_last()) + seq!['/'] + p.last().push(
                    s.last(),
                ));
                assert(join_slash(p.drop_last()) + seq!['/'] + p.last().push(s.last()) =~= (
                join_slash(p.drop_last()) + seq!['/'] + p.last()).push(s.last()));
                assert(join_slash(p) == s.drop_last());
                assert(s.drop_last().push(s.last()) =~= s);
            }
        }
    }
}

/// Splitting a `/`-free sequence yields that one segment.
proof fn lemma_split_single(s: Seq<char>)
    requires
        !s.contains('/'),
    ensures
        split_slash(s) =~= seq![s],
    decreases s.len(),
{
    if s.len() == 0 {
        assert(split_slash(s) =~~= seq![s]);
    } else {
        assert(s.last() != '/');
        assert forall|i: int| 0 <= i < s.drop_last().len() implies s.drop_last()[i] != '/' by {
            assert(s.drop_last()[i] == s[i]);
        }
        assert(!s.drop_last().contains('/'));
        lemma_split_single(s.drop_last());
        assert(split_slash(s) =~= seq![s.drop_last().push(s.last())]);
        assert(s.drop_last().push(s.last()) =~= s);
    }
}

/// Appending a `/`-free suffix extends the last segment of a split.
proof fn lemma_split_append_free(x: Seq<char>, b: Seq<char>)
    requires
        !b.contains('/'),
    ensures
        split_slash(x + b) =~= split_slash(x).drop_last().push(split_slash(x).last() + b),
    decreases b.len(),
{
    lemma_split_len(x);
    if b.len() == 0 {
        assert(x + b =~= x);
        assert(split_slash(x).drop_last().push(split_slash(x).last() + b) =~= split_slash(x));
    } else {
        assert(b.last() != '/');
        assert forall|i: int| 0 <= i < b.drop_last().len() implies b.drop_last()[i] != '/' by {
            assert(b.drop_last()[i] == b[i]);
        }
        assert(!b.drop_last().contains('/'));
        lemma_split_append_free(x, b.drop_last());
        let s = x + b;
        assert(s.len() > 0);
        assert(s.last() == b.last());
        assert(s.drop_last() =~= x + b.drop_last());
        let p = split_slash(x + b.drop_last());
        assert(split_slash(s) =~= p.drop_last().push(p.last().push(s.last())));
        assert(p =~= split_slash(x).drop_last().push(split_slash(x).last() + b.drop_last()));
        assert(p.drop_last() =~= split_slash(x).drop_last());
        assert(p.last() =~= split_slash(x).last() + b.drop_last());
        assert(p.last().push(b.last()) =~= split_slash(x).last() + b);
    }
}

/// Appending a `/` closes the current segment and opens an empty one.
proof fn lemma_split_append_slash(x: Seq<char>)
    ensures
        split_slash(x + seq!['/']) =~= split_slash(x).push(Seq::<char>::empty()),
{
    let s = x + seq!['/'];
    assert(s.len() > 0);
    assert(s.last() == '/');
    assert(s.drop_last() =~= x);
}

/// Splitting undoes joining, for a non-empty list of `/`-free segments.
pub proof fn lemma_split_of_join(ss: Seq<Seq<char>>)
    requires
        ss.len() >= 1,
        forall|j: int| 0 <= j < ss.len() ==> !(#[trigger] ss[j]).contains('/'),
    ensures
        split_slash(join_slash(ss)) == ss,
    decreases ss.len(),
{
    if ss.len() == 1 {
        lemma_split_single(ss[0]);
        assert(split_slash(join_slash(ss)) =~= ss);
    } else {
        let pre = ss.drop_last();
        assert forall|j: int| 0 <= j < pre.len() implies !(#[trigger] pre[j]).contains('/') by {
            assert(pre[j] == ss[j]);
        }
        lemma_split_of_join(pre);
        let x = join_slash(pre);
        assert(join_slash(ss) =~= (x + seq!['/']) + ss.last());
        lemma_split_append_slash(x);
        lemma_split_append_free(x + seq!['/'], ss.last());
        let q = split_slash(x + seq!['/']);
        assert(q =~= pre.push(Seq::<char>::empty()));
        assert(q.drop_last() =~= pre);
        assert(q.last() + ss.last() =~= ss.last());
        assert(split_slash(join_slash(ss)) =~= pre.push(ss.last()));
        assert(pre.push(ss.last()) =~= ss);
    }
}

/// With `/`-free input segments and valid substitutes, every normalized
/// segment is `/`-free, and after the first none is numeric: a replaced
/// segment ends in the letter `d`, a kept one was not numeric to begin
/// with.
proof fn lemma_norm_segs_with_shape(ss: Seq<Seq<char>>, subs: Seq<Seq<char>>)
    requires
        valid_substitutes(ss, subs),
        forall|j: int| 0 <= j < ss.len() ==> !(#[trigger] ss[j]).contains('/'),
    ensures
        forall|j: int|
            0 <= j < norm_segs_with(ss, subs).len() ==> !(#[trigger] norm_segs_with(ss, subs)[j])
                .contains('/'),
        forall|j: int|
            0 < j < norm_segs_with(ss, subs).len() ==> !seg_is_numeric(
                #[trigger] norm_segs_with(ss, subs)[j],
            ),
{
    reveal_strlit("Id");
    let ns = norm_segs_with(ss, subs);
    assert forall|j: int| 0 <= j < ns.len() implies !(#[trigger] ns[j]).contains('/') by {
        if 0 < j && seg_is_numeric(ss[j]) {
            let r = subs[j] + "Id"@;
            assert(!subs[j].contains('/'));
            assert forall|i: int| 0 <= i < r.len() implies r[i] != '/' by {
                if i < subs[j].len() {
                    assert(r[i] == subs[j][i]);
                    assert(!subs[j].contains('/'));
                } else {
                    assert(r[i] == "Id"@[i - subs[j].len()]);
                }
            }
        }
    }
    assert forall|j: int| 0 < j < ns.len() implies !seg_is_numeric(#[trigger] ns[j]) by {
        if seg_is_numeric(ss[j]) {
            let r = subs[j] + "Id"@;
            assert(r.len() >= 2);
            assert(r.last() == 'd');
            if seg_is_numeric(r) {
                assert(is_digit_char(r[r.len() - 1]));
                assert(false);
            }
        }
    }
}

/// Normalization is idempotent: a path that came out of normalization goes
/// through a second normalization unchanged, whatever singular forms either
/// run was answered. In particular an already-normalized path is left as it
/// is.
pub proof fn lemma_normalize_idempotent(p: Seq<char>, r: Seq<char>, r2: Seq<char>)
    requires
        is_normalization_of(p, r),
        is_normalization_of(r, r2),
    ensures
        r2 == r,
{
    let ss = split_slash(p);
    let subs = choose|subs: Seq<Seq<char>>|
        #[trigger] valid_substitutes(split_slash(p), subs) && r == join_slash(
            norm_segs_with(split_slash(p), subs),
        );
    let ns = norm_segs_with(ss, subs);
    lemma_split_len(p);
    lemma_split_no_slash(p);
    lemma_norm_segs_with_shape(ss, subs);
    lemma_split_of_join(ns);
    assert(split_slash(r) == ns);
    let subs2 = choose|subs2: Seq<Seq<char>>|
        #[trigger] valid_substitutes(split_slash(r), subs2) && r2 == join_slash(
            norm_segs_with(split_slash(r), subs2),
        );
    assert forall|j: int| 0 <= j < ns.len() implies #[trigger] norm_segs_with(ns, subs2)[j]
        == ns[j] by {
        if 0 < j && seg_is_numeric(ns[j]) {
            assert(!seg_is_numeric(ns[j]));
        }
    }
    assert(norm_segs_with(ns, subs2) =~= ns);
    lemma_join_of_split(r);
    assert(r2 == join_slash(ns));
    assert(join_slash(split_slash(r)) == r);
}

/// Whether the segment consists entirely of decimal digits and is non-empty.
pub fn is_numeric_segment(s: &str) -> (b: bool)
    ensures
        b == seg_is_numeric(s@),
{
    let n = s.unicode_len();
    if n == 0 {
        return false;
    }
    let mut i: usize = 0;
    while i < n
        invariant
            0 <= i <= n,
            n == s@.len(),
            forall|j: int| 0 <= j < i ==> is_digit_char(#[trigger] s@[j]),
        decreases n - i,
    {
        let c = s.get_char(i);
        if !('0' <= c && c <= '9') {
            return false;
        }
        i += 1;
    }
    true
}

/// The `/`-delimited segments of a path, in order.
pub fn split_path(s: &str) -> (segs: Vec<String>)
    ensures
        segs.deep_view() == split_slash(s@),
{
    let n = s.unicode_len();
    let mut segs: Vec<String> = Vec::new();
    let mut start: usize = 0;
    let mut i: usize = 0;
    proof {
        assert(s@.subrange(0, 0) =~= Seq::<char>::empty());
        assert(segs.deep_view() =~~= Seq::<Seq<char>>::empty());
        assert(segs.deep_view().push(s@.subrange(0, 0)) =~~= split_slash(s@.subrange(0, 0)));
    }
    while i < n
        invariant
            0 <= start <= i <= n,
            n == s@.len(),
            segs.deep_view().push(s@.subrange(start as int, i as int)) == split_slash(
                s@.subrange(0, i as int),
            ),
        decreases n - i,
    {
        let c = s.get_char(i);
        let ghost pre = s@.subrange(0, i as int);
        let ghost ext = s@.subrange(0, i as int + 1);
        let ghost dv0 = segs.deep_view();
        let ghost cur0 = s@.subrange(start as int, i as int);
        proof {
            assert(ext.len() > 0);
            assert(ext.last() == s@[i as int]);
            assert(ext.drop_last() =~= pre);
        }
        if c == '/' {
            let seg = s.substring_char(start, i).to_owned();
            segs.push(seg);
            proof {
                assert(segs.deep_view() =~~= dv0.push(cur0));
                // ext ends in '/', so its split closes the current segment
                // and opens an empty one.
                assert(split_slash(ext) == split_slash(pre).push(Seq::<char>::empty()));
                assert(s@.subrange(i as int + 1, i as int + 1) =~= Seq::<char>::empty());
                assert(segs.deep_view().push(s@.subrange(i as int + 1, i as int + 1))
                    =~= split_slash(ext));
            }
            start = i + 1;
        } else {
            proof {
                // ext ends in a non-'/', which extends the last segment.
                let p = split_slash(pre);
                assert(p == dv0.push(cur0));
                assert(split_slash(ext) == p.drop_last().push(p.last().push(s@[i as int])));
                assert(p.drop_last() =~= dv0);
                assert(p.last() == cur0);
                assert(cur0.push(s@[i as int]) =~= s@.subrange(start as int, i as int + 1));
                assert(segs.deep_view().push(s@.subrange(start as int, i as int + 1))
                    =~= split_slash(ext));
            }
        }
        i += 1;
    }
    let last = s.substring_char(start, n).to_owned();
    let ghost dv0 = segs.deep_view();
    segs.push(last);
    proof {
        assert(s@.subrange(0, n as int) =~= s@);
        assert(segs.deep_view() =~~= dv0.push(s@.subrange(start as int, n as int)));
        assert(segs.deep_view() =~~= split_slash(s@));
    }
    segs
}

/// The segments joined with `/` between them.
pub fn join_segments(segs: &Vec<String>) -> (r: String)
    requires
        segs@.len() >= 1,
    ensures
        r@ == join_slash(segs.deep_view()),
{
    let mut r: String = segs[0].clone();
    let mut i: usize = 1;
    proof {
        assert(segs.deep_view().subrange(0, 1) =~= seq![segs.deep_view()[0]]);
    }
    while i < segs.len()
        invariant
            1 <= i <= segs@.len(),
            segs.deep_view().len() == segs@.len(),
            r@ == join_slash(segs.deep_view().subrange(0, i as int)),
        decreases segs@.len() - i,
    {
        r.append("/");
        r.append(segs[i].as_str());
        proof {
            reveal_strlit("/");
            let dv = segs.deep_view();
            let ext = dv.subrange(0, i as int + 1);
            assert(ext.len() >= 2);
            assert(ext.drop_last() =~= dv.subrange(0, i as int));
            assert(ext.last() == dv[i as int]);
            assert("/"@ =~= seq!['/']);
            assert(r@ =~= join_slash(ext));
        }
        i += 1;
    }
    proof {
        assert(segs.deep_view().subrange(0, segs@.len() as int) =~= segs.deep_view());
    }
    r
}

/// The normalized resource form of a request path: every all-digit segment
/// after the first is replaced by the singular form of the segment before
/// it followed by `Id`; all other segments are kept; the first segment is
/// never replaced. A non-ASCII predecessor is its own singular (the
/// singularizer's rules are for English words and unsafe beyond ASCII).
pub fn convert_path_to_resource(path: &str) -> (r: String)
    ensures
        is_normalization_of(path@, r@),
{
    let segs = split_path(path);
    let ghost ss = split_slash(path@);
    proof {
        lemma_split_len(path@);
        lemma_split_no_slash(path@);
    }
    let mut out: Vec<String> = Vec::new();
    let ghost mut subs: Seq<Seq<char>> = Seq::empty();
    let mut i: usize = 0;
    while i < segs.len()
        invariant
            0 <= i <= segs@.len(),
            segs.deep_view() == ss,
            ss == split_slash(path@),
            ss.len() == segs@.len(),
            forall|j: int| 0 <= j < ss.len() ==> !(#[trigger] ss[j]).contains('/'),
            subs.len() == i,
            forall|k: int|
                0 < k < i && seg_is_numeric(ss[k]) ==> {
                    &&& !(#[trigger] subs[k]).contains('/')
                    &&& (ss[k - 1].len() == 0 ==> subs[k].len() == 0)
                },
            out.deep_view().len() == i,
            forall|k: int|
                0 <= k < i ==> #[trigger] out.deep_view()[k] == (if 0 < k && seg_is_numeric(
                    ss[k],
                ) {
                    subs[k] + "Id"@
                } else {
                    ss[k]
                }),
        decreases segs@.len() - i,
    {
        let ghost dv0 = out.deep_view();
        if i > 0 && is_numeric_segment(segs[i].as_str()) {
            let prev = segs[i - 1].as_str();
            proof {
                assert(segs.deep_view()[i - 1] == ss[i - 1]);
                assert(!ss[i - 1].contains('/'));
            }
            let mut t = if prev.is_ascii() {
                singularize(prev)
            } else {
                prev.to_owned()
            };
            let ghost sub = t@;
            t.append("Id");
            out.push(t);
            proof {
                subs = subs.push(sub);
                assert(out.deep_view() =~~= dv0.push(sub + "Id"@));
            }
        } else {
            out.push(segs[i].clone());
            proof {
                subs = subs.push(Seq::<char>::empty());
                assert(out.deep_view() =~~= dv0.push(ss[i as int]));
            }
        }
        i += 1;
    }
    proof {
        assert(valid_substitutes(ss, subs));
        assert(out.deep_view() =~= norm_segs_with(ss, subs));
        assert(out@.len() == ss.len());
    }
    let r = join_segments(&out);
    proof {
        assert(valid_substitutes(split_slash(path@), subs) && r@ == join_slash(
            norm_segs_with(split_slash(path@), subs),
        ));
    }
    r
}

} // verus!
