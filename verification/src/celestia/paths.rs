use vstd::prelude::*;

verus! {

/// How far `a` and `b` agree when read from position `i` on, given that they
/// agree before it.
pub open spec fn common_len_from(a: Seq<usize>, b: Seq<usize>, i: nat) -> nat
    decreases a.len() - i,
{
    if i < a.len() && i < b.len() && a[i as int] == b[i as int] {
        common_len_from(a, b, i + 1)
    } else {
        i
    }
}

/// The length of the longest common prefix of two paths.
pub open spec fn common_len(a: Seq<usize>, b: Seq<usize>) -> nat {
    common_len_from(a, b, 0)
}

/// `p` is a prefix of `path`, the whole of it included.
pub open spec fn is_prefix(p: Seq<usize>, path: Seq<usize>) -> bool {
    p.len() <= path.len() && path.take(p.len() as int) == p
}

/// What `common_len_from` computes: the first position at or after `i` where
/// the paths part or one of them ends.
pub proof fn lemma_common_len_from(a: Seq<usize>, b: Seq<usize>, i: nat)
    requires
        i <= a.len(),
        i <= b.len(),
        forall|j: int| 0 <= j < i ==> a[j] == b[j],
    ensures
        i <= common_len_from(a, b, i) <= a.len(),
        common_len_from(a, b, i) <= b.len(),
        forall|j: int| 0 <= j < common_len_from(a, b, i) ==> a[j] == b[j],
        common_len_from(a, b, i) < a.len() && common_len_from(a, b, i) < b.len() ==> a[common_len_from(
            a,
            b,
            i,
        ) as int] != b[common_len_from(a, b, i) as int],
        common_len_from(a, b, i) == common_len_from(b, a, i),
    decreases a.len() - i,
{
    if i < a.len() && i < b.len() && a[i as int] == b[i as int] {
        lemma_common_len_from(a, b, i + 1);
    }
}

/// The longest common prefix is a prefix of both paths, is as long as it can
/// be, and does not depend on the order of the two paths.
pub proof fn lemma_common_len(a: Seq<usize>, b: Seq<usize>)
    ensures
        common_len(a, b) <= a.len(),
        common_len(a, b) <= b.len(),
        a.take(common_len(a, b) as int) == b.take(common_len(a, b) as int),
        common_len(a, b) < a.len() && common_len(a, b) < b.len() ==> a[common_len(a, b) as int]
            != b[common_len(a, b) as int],
        common_len(a, b) == common_len(b, a),
{
    lemma_common_len_from(a, b, 0);
    let k = common_len(a, b) as int;
    assert(a.take(k) =~= b.take(k));
}

/// A path agrees with itself over its whole length.
pub proof fn lemma_common_len_self(a: Seq<usize>)
    ensures
        common_len(a, a) == a.len(),
{
    lemma_common_len_from(a, a, 0);
}

/// A path up to the common prefix is a prefix of one path exactly when it is a
/// prefix of the other.
pub proof fn lemma_prefix_below_common(a: Seq<usize>, b: Seq<usize>, p: Seq<usize>)
    requires
        p.len() <= common_len(a, b),
    ensures
        is_prefix(p, a) == is_prefix(p, b),
{
    lemma_common_len(a, b);
    let k = common_len(a, b) as int;
    let n = p.len() as int;
    assert(a.take(n) =~= a.take(k).take(n));
    assert(b.take(n) =~= b.take(k).take(n));
}

/// The nodes met when climbing from `path` towards the root, deepest first,
/// down to but without the prefix of length `k`.
pub open spec fn ascent(path: Seq<usize>, k: nat) -> Seq<Seq<usize>>
    decreases path.len(),
{
    if path.len() <= k {
        seq![]
    } else {
        seq![path] + ascent(path.drop_last(), k)
    }
}

/// The climb from `path` has one node for each level above `k`, and its
/// `j`-th node is the prefix that is `j` levels shorter than `path`.
pub proof fn lemma_ascent(path: Seq<usize>, k: nat)
    ensures
        ascent(path, k).len() == if path.len() <= k {
            0
        } else {
            path.len() - k
        },
        forall|j: int|
            0 <= j < ascent(path, k).len() ==> #[trigger] ascent(path, k)[j] == path.take(
                path.len() - j,
            ),
    decreases path.len(),
{
    if path.len() > k {
        let rest = path.drop_last();
        lemma_ascent(rest, k);
        assert forall|j: int| 0 <= j < ascent(path, k).len() implies #[trigger] ascent(path, k)[j]
            == path.take(path.len() - j) by {
            if j == 0 {
                assert(path.take(path.len() as int) =~= path);
            } else {
                assert(ascent(path, k)[j] == ascent(rest, k)[j - 1]);
                assert(rest.take(rest.len() - (j - 1)) =~= path.take(path.len() - j));
            }
        }
    }
}

/// One raw body state to add to, or take from, a state under translation.
pub struct Term {
    pub path: Seq<usize>,
    pub negated: bool,
}

/// The terms of a climb, all with the same sign.
pub open spec fn signed(paths: Seq<Seq<usize>>, negated: bool) -> Seq<Term> {
    Seq::new(paths.len(), |j: int| Term { path: paths[j], negated })
}

/// The translation that takes a state from the body at `from` to the body at
/// `to`: the raw states on the way up from `from` to the common ancestor are
/// added, deepest first, then those on the way up from `to` are taken away,
/// deepest first.
pub open spec fn translation(from: Seq<usize>, to: Seq<usize>) -> Seq<Term> {
    let k = common_len(from, to);
    signed(ascent(from, k), false) + signed(ascent(to, k), true)
}

/// The net number of times that the raw state of the body at `p` enters a sum
/// of terms.
pub open spec fn coefficient(terms: Seq<Term>, p: Seq<usize>) -> int
    decreases terms.len(),
{
    if terms.len() == 0 {
        0
    } else {
        coefficient(terms.drop_last(), p) + if terms.last().path == p {
            if terms.last().negated {
                -1int
            } else {
                1int
            }
        } else {
            0int
        }
    }
}

/// 1 when the body at `p` lies on the way from the root down to `path`, the
/// root itself left out; 0 otherwise.
pub open spec fn on_chain(p: Seq<usize>, path: Seq<usize>) -> int {
    if p.len() > 0 && is_prefix(p, path) {
        1
    } else {
        0
    }
}

/// Coefficients add up over concatenation.
pub proof fn lemma_coefficient_concat(s: Seq<Term>, t: Seq<Term>, p: Seq<usize>)
    ensures
        coefficient(s + t, p) == coefficient(s, p) + coefficient(t, p),
    decreases t.len(),
{
    if t.len() == 0 {
        assert(s + t =~= s);
    } else {
        assert((s + t).drop_last() =~= s + t.drop_last());
        assert((s + t).last() == t.last());
        lemma_coefficient_concat(s, t.drop_last(), p);
    }
}

/// In a climb from `path` above level `k`, the body at `p` occurs once if it is
/// a prefix of `path` longer than `k`, and not at all otherwise.
pub proof fn lemma_coefficient_ascent(path: Seq<usize>, k: nat, negated: bool, p: Seq<usize>)
    ensures
        coefficient(signed(ascent(path, k), negated), p) == if p.len() > k && is_prefix(p, path) {
            if negated {
                -1int
            } else {
                1int
            }
        } else {
            0int
        },
    decreases path.len(),
{
    let terms = signed(ascent(path, k), negated);
    if path.len() <= k {
        assert(terms =~= Seq::<Term>::empty());
    } else {
        let rest = path.drop_last();
        let head = seq![Term { path, negated }];
        let tail = signed(ascent(rest, k), negated);
        assert(terms =~= head + tail);
        lemma_coefficient_concat(head, tail, p);
        lemma_coefficient_ascent(rest, k, negated, p);
        assert(head.drop_last() =~= Seq::<Term>::empty());
        assert(coefficient(head.drop_last(), p) == 0);
        assert(path.take(path.len() as int) =~= path);
        if p.len() <= rest.len() {
            assert(rest.take(p.len() as int) =~= path.take(p.len() as int));
        }
    }
}

/// What a translation amounts to: each body on the way from the root to `from`
/// enters once, each body on the way from the root to `to` leaves once, and
/// what the two ways share cancels.
pub proof fn lemma_translation_coefficient(from: Seq<usize>, to: Seq<usize>, p: Seq<usize>)
    ensures
        coefficient(translation(from, to), p) == on_chain(p, from) - on_chain(p, to),
{
    let k = common_len(from, to);
    let up = signed(ascent(from, k), false);
    let down = signed(ascent(to, k), true);
    lemma_coefficient_concat(up, down, p);
    lemma_coefficient_ascent(from, k, false, p);
    lemma_coefficient_ascent(to, k, true, p);
    if p.len() <= k {
        lemma_prefix_below_common(from, to, p);
    }
}

/// The way from `from` to `to` and the way back cancel body by body.
pub proof fn lemma_translation_round_trip(from: Seq<usize>, to: Seq<usize>, p: Seq<usize>)
    ensures
        coefficient(translation(from, to) + translation(to, from), p) == 0,
{
    lemma_coefficient_concat(translation(from, to), translation(to, from), p);
    lemma_translation_coefficient(from, to, p);
    lemma_translation_coefficient(to, from, p);
}

/// Additivity. What takes a state from the body at `target` to the body at
/// `observer` is, body by body, what takes it from `target` to the root less
/// what takes it from `observer` to the root.
pub proof fn lemma_translation_additive(target: Seq<usize>, observer: Seq<usize>, p: Seq<usize>)
    ensures
        coefficient(translation(target, observer), p) == coefficient(
            translation(target, Seq::empty()),
            p,
        ) - coefficient(translation(observer, Seq::empty()), p),
{
    lemma_translation_coefficient(target, observer, p);
    lemma_translation_coefficient(target, Seq::empty(), p);
    lemma_translation_coefficient(observer, Seq::empty(), p);
}

/// The way from a body to the root goes through each of its ancestors: it is,
/// body by body, the way from the body to the ancestor `n` levels below the
/// root and the way from that ancestor to the root.
pub proof fn lemma_translation_through(path: Seq<usize>, n: int, p: Seq<usize>)
    requires
        0 <= n <= path.len(),
    ensures
        coefficient(translation(path, Seq::empty()), p) == coefficient(
            translation(path, path.take(n)),
            p,
        ) + coefficient(translation(path.take(n), Seq::empty()), p),
{
    lemma_translation_coefficient(path, Seq::empty(), p);
    lemma_translation_coefficient(path, path.take(n), p);
    lemma_translation_coefficient(path.take(n), Seq::empty(), p);
}

/// A translation never reaches the common ancestor of the two bodies or
/// anything above it: each of its terms is a body strictly below the common
/// prefix, on the way to one of the two ends.
pub proof fn lemma_translation_below_common(from: Seq<usize>, to: Seq<usize>, j: int)
    requires
        0 <= j < translation(from, to).len(),
    ensures
        translation(from, to)[j].path.len() > common_len(from, to),
        is_prefix(translation(from, to)[j].path, from) || is_prefix(
            translation(from, to)[j].path,
            to,
        ),
        translation(from, to)[j].path.take(common_len(from, to) as int) == from.take(
            common_len(from, to) as int,
        ),
{
    let k = common_len(from, to);
    lemma_common_len(from, to);
    lemma_ascent(from, k);
    lemma_ascent(to, k);
    let up = ascent(from, k);
    let t = translation(from, to)[j].path;
    if j < up.len() {
        assert(t == up[j]);
        assert(t == from.take(from.len() - j));
        assert(t.take(t.len() as int) =~= t);
        assert(from.take(t.len() as int) =~= t);
        assert(t.take(k as int) =~= from.take(k as int));
    } else {
        let i = j - up.len();
        assert(t == ascent(to, k)[i]);
        assert(t == to.take(to.len() - i));
        assert(to.take(t.len() as int) =~= t);
        assert(t.take(k as int) =~= to.take(k as int));
    }
}

/// Between two frames of the same body nothing is translated.
pub proof fn lemma_translation_same_body(path: Seq<usize>)
    ensures
        translation(path, path) == Seq::<Term>::empty(),
{
    lemma_common_len_self(path);
    assert(translation(path, path) =~= Seq::<Term>::empty());
}

} // verus!
