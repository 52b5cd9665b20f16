//! Keyed collections kept sorted by key, with "last write wins" semantics:
//! the model of collecting `(key, value)` pairs into an ordered map and
//! reading the values back in key order.

use vstd::prelude::*;

verus! {

/// A value ordered by a key that it carries. `key_order` is a total preorder
/// (three-way, antisymmetric, transitive); values whose keys compare equal are
/// "the same entry" of a map keyed that way. The order only depends on the
/// value's view.
pub trait KeyOrder: Sized + View {
    spec fn key_order(a: Self, b: Self) -> int;

    proof fn lemma_key_order(a: Self, b: Self, c: Self)
        ensures
            -1 <= Self::key_order(a, b) <= 1,
            Self::key_order(a, b) == -Self::key_order(b, a),
            Self::key_order(a, a) == 0,
            Self::key_order(a, b) <= 0 && Self::key_order(b, c) <= 0 ==> Self::key_order(a, c)
                <= 0,
            Self::key_order(a, b) < 0 && Self::key_order(b, c) <= 0 ==> Self::key_order(a, c)
                < 0,
            Self::key_order(a, b) <= 0 && Self::key_order(b, c) < 0 ==> Self::key_order(a, c)
                < 0,
            a@ == b@ ==> Self::key_order(a, c) == Self::key_order(b, c),
    ;

    fn compare_keys(&self, other: &Self) -> (r: i8)
        ensures
            r as int == Self::key_order(*self, *other),
    ;
}

/// Strictly increasing keys.
pub open spec fn sorted_by_key<V: KeyOrder>(r: Seq<V>) -> bool {
    forall|a: int, b: int| 0 <= a < b < r.len() ==> V::key_order(#[trigger] r[a], #[trigger] r[b]) < 0
}

/// `s[i]` is the last element of `s` with its key.
pub open spec fn last_with_key<V: KeyOrder>(s: Seq<V>, i: int) -> bool {
    &&& 0 <= i < s.len()
    &&& forall|k: int| i < k < s.len() ==> V::key_order(#[trigger] s[k], s[i]) != 0
}

/// `v` has the view of the last element of `s` for some key that `keep` accepts.
pub open spec fn is_kept_last<V: KeyOrder>(v: V, s: Seq<V>, keep: spec_fn(V) -> bool) -> bool {
    exists|i: int| #![trigger s[i]] last_with_key(s, i) && keep(s[i]) && v@ == s[i]@
}

/// Some element of `r` has the view of `v`.
pub open spec fn has_view<V: View>(r: Seq<V>, v: V) -> bool {
    exists|j: int| #![trigger r[j]] 0 <= j < r.len() && r[j]@ == v@
}

/// Some element of `r` is `v`.
pub open spec fn has_elem<V>(r: Seq<V>, v: V) -> bool {
    exists|j: int| #![trigger r[j]] 0 <= j < r.len() && r[j] == v
}

/// `r` holds, in strictly increasing key order, exactly the last element of
/// `s` for each key among those that `keep` accepts (compared by view).
pub open spec fn selects_last<V: KeyOrder>(r: Seq<V>, s: Seq<V>, keep: spec_fn(V) -> bool) -> bool {
    &&& sorted_by_key(r)
    &&& forall|j: int| 0 <= j < r.len() ==> is_kept_last(#[trigger] r[j], s, keep)
    &&& forall|i: int| last_with_key(s, i) && keep(#[trigger] s[i]) ==> has_view(r, s[i])
}

/// `v` is the last element of `s` with its key.
pub open spec fn is_last_of<V: KeyOrder>(v: V, s: Seq<V>) -> bool {
    exists|i: int| #![trigger s[i]] last_with_key(s, i) && v == s[i]
}

/// Every element of `r` is the last element of `s` with its key.
pub open spec fn from_last<V: KeyOrder>(r: Seq<V>, s: Seq<V>) -> bool {
    forall|j: int| 0 <= j < r.len() ==> is_last_of(#[trigger] r[j], s)
}

/// Every last element of `s` for a key is in `r`.
pub open spec fn covers_last<V: KeyOrder>(r: Seq<V>, s: Seq<V>) -> bool {
    forall|i: int| last_with_key(s, i) ==> has_elem(r, #[trigger] s[i])
}

/// As `selects_last` with no filter, and with the elements themselves (not
/// only their views) taken from `s`.
pub open spec fn collects_last<V: KeyOrder>(r: Seq<V>, s: Seq<V>) -> bool {
    &&& sorted_by_key(r)
    &&& from_last(r, s)
    &&& covers_last(r, s)
}

/// Inserts `x` into a sorted vector, replacing the element with the same key.
fn insert_last<V: KeyOrder>(r: &mut Vec<V>, x: V)
    requires
        sorted_by_key(old(r)@),
    ensures
        sorted_by_key(final(r)@),
        exists|p: int| 0 <= p < final(r)@.len() && final(r)@[p] == x,
        forall|j: int|
            0 <= j < final(r)@.len() ==> final(r)@[j] == x || (exists|m: int|
                #![trigger old(r)@[m]]
                0 <= m < old(r)@.len() && old(r)@[m] == final(r)@[j] && V::key_order(
                    old(r)@[m],
                    x,
                ) != 0),
        forall|m: int|
            0 <= m < old(r)@.len() && V::key_order(old(r)@[m], x) != 0 ==> exists|j: int|
                #![trigger final(r)@[j]]
                0 <= j < final(r)@.len() && final(r)@[j] == old(r)@[m],
{
    let ghost s = r@;
    let n = r.len();
    let mut p: usize = 0;
    while p < n && r[p].compare_keys(&x) < 0
        invariant
            0 <= p <= n,
            n == r@.len(),
            r@ == s,
            forall|k: int| 0 <= k < p ==> V::key_order(#[trigger] s[k], x) < 0,
        decreases n - p,
    {
        p = p + 1;
    }
    if p < n && r[p].compare_keys(&x) == 0 {
        proof {
            // every other element differs from x in key
            assert forall|k: int| 0 <= k < n && k != p implies V::key_order(#[trigger] s[k], x)
                != 0 by {
                V::lemma_key_order(s[k], s[p as int], x);
                V::lemma_key_order(s[p as int], s[k], x);
                V::lemma_key_order(s[k], x, s[p as int]);
                V::lemma_key_order(x, s[k], s[p as int]);
                if k < p {
                } else {
                    assert(V::key_order(s[p as int], s[k]) < 0);
                }
            }
        }
        r.set(p, x);
        proof {
            let t = r@;
            assert forall|a: int, b: int| 0 <= a < b < t.len() implies V::key_order(
                #[trigger] t[a],
                #[trigger] t[b],
            ) < 0 by {
                if a == p {
                    V::lemma_key_order(x, s[p as int], s[b]);
                    V::lemma_key_order(s[p as int], x, s[b]);
                    assert(V::key_order(s[p as int], s[b]) < 0);
                } else if b == p {
                    V::lemma_key_order(s[a], s[p as int], x);
                    V::lemma_key_order(s[a], x, s[p as int]);
                    assert(V::key_order(s[a], s[p as int]) < 0);
                } else {
                    assert(t[a] == s[a] && t[b] == s[b]);
                }
            }
            assert(t[p as int] == x);
            assert forall|j: int| 0 <= j < t.len() implies t[j] == x || (exists|m: int|
                #![trigger s[m]]
                0 <= m < s.len() && s[m] == t[j] && V::key_order(s[m], x) != 0) by {
                if j != p {
                    assert(s[j] == t[j]);
                    assert(V::key_order(s[j], x) != 0);
                }
            }
            assert forall|m: int| 0 <= m < s.len() && V::key_order(s[m], x) != 0 implies exists|
                j: int,
            |
                #![trigger t[j]]
                0 <= j < t.len() && t[j] == s[m] by {
                if m == p {
                    V::lemma_key_order(s[m], x, x);
                }
                assert(t[m] == s[m]);
            }
        }
    } else {
        proof {
            assert forall|k: int| p <= k < n implies V::key_order(#[trigger] s[k], x) > 0 by {
                V::lemma_key_order(s[p as int], s[k], x);
                V::lemma_key_order(x, s[p as int], s[k]);
                V::lemma_key_order(s[k], x, x);
                if k > p {
                    assert(V::key_order(s[p as int], s[k]) < 0);
                }
                V::lemma_key_order(x, s[k], s[k]);
            }
        }
        r.insert(p, x);
        proof {
            let t = r@;
            assert forall|a: int, b: int| 0 <= a < b < t.len() implies V::key_order(
                #[trigger] t[a],
                #[trigger] t[b],
            ) < 0 by {
                if a == p {
                    assert(t[b] == s[b - 1]);
                    V::lemma_key_order(x, s[b - 1], x);
                } else if b == p {
                    assert(t[a] == s[a]);
                } else if a < p && b < p {
                    assert(t[a] == s[a] && t[b] == s[b]);
                } else if a < p {
                    assert(t[a] == s[a] && t[b] == s[b - 1]);
                } else {
                    assert(t[a] == s[a - 1] && t[b] == s[b - 1]);
                }
            }
            assert(t[p as int] == x);
            assert forall|j: int| 0 <= j < t.len() implies t[j] == x || (exists|m: int|
                #![trigger s[m]]
                0 <= m < s.len() && s[m] == t[j] && V::key_order(s[m], x) != 0) by {
                if j < p {
                    assert(t[j] == s[j]);
                } else if j > p {
                    assert(t[j] == s[j - 1]);
                }
            }
            assert forall|m: int| 0 <= m < s.len() && V::key_order(s[m], x) != 0 implies exists|
                j: int,
            |
                #![trigger t[j]]
                0 <= j < t.len() && t[j] == s[m] by {
                if m < p {
                    assert(t[m] == s[m]);
                } else {
                    assert(t[m + 1] == s[m]);
                }
            }
        }
    }
}

/// One step of `collect_last`, first half: the elements after inserting `x`
/// are last elements of `pre.push(x)`.
proof fn lemma_collect_step_from<V: KeyOrder>(before: Seq<V>, t: Seq<V>, pre: Seq<V>, x: V, post: Seq<V>)
    requires
        post == pre.push(x),
        from_last(before, pre),
        forall|j: int|
            0 <= j < t.len() ==> t[j] == x || (exists|m: int|
                #![trigger before[m]]
                0 <= m < before.len() && before[m] == t[j] && V::key_order(before[m], x) != 0),
    ensures
        from_last(t, post),
{
    let i = pre.len() as int;
    assert forall|j: int| 0 <= j < t.len() implies is_last_of(#[trigger] t[j], post) by {
        if t[j] == x {
            assert(post[i] == x);
            assert(last_with_key(post, i));
        } else {
            let m0 = choose|m0: int|
                #![trigger before[m0]]
                0 <= m0 < before.len() && before[m0] == t[j] && V::key_order(before[m0], x) != 0;
            assert(is_last_of(before[m0], pre));
            let m = choose|m: int| #![trigger pre[m]] last_with_key(pre, m) && before[m0] == pre[m];
            assert(post[m] == pre[m]);
            assert forall|k: int| m < k < post.len() implies V::key_order(#[trigger] post[k], post[m])
                != 0 by {
                if k == i {
                    V::lemma_key_order(x, pre[m], pre[m]);
                } else {
                    assert(post[k] == pre[k]);
                }
            }
            assert(last_with_key(post, m));
        }
    }
}

/// One step of `collect_last`, second half: every last element of
/// `pre.push(x)` is present after inserting `x`.
proof fn lemma_collect_step_covers<V: KeyOrder>(before: Seq<V>, t: Seq<V>, pre: Seq<V>, x: V, post: Seq<V>)
    requires
        post == pre.push(x),
        covers_last(before, pre),
        forall|m: int|
            0 <= m < before.len() && V::key_order(before[m], x) != 0 ==> exists|j: int|
                #![trigger t[j]]
                0 <= j < t.len() && t[j] == before[m],
        exists|p: int| 0 <= p < t.len() && t[p] == x,
    ensures
        covers_last(t, post),
{
    let i = pre.len() as int;
    assert forall|m: int| last_with_key(post, m) implies has_elem(t, #[trigger] post[m]) by {
        if m == i {
            let p = choose|p: int| 0 <= p < t.len() && t[p] == x;
            assert(t[p] == post[m]);
        } else {
            assert(post[m] == pre[m]);
            assert(V::key_order(post[i], post[m]) != 0);
            V::lemma_key_order(post[i], post[m], post[m]);
            assert forall|k: int| m < k < pre.len() implies V::key_order(#[trigger] pre[k], pre[m])
                != 0 by {
                assert(post[k] == pre[k]);
            }
            assert(last_with_key(pre, m));
            assert(has_elem(before, pre[m]));
            let j0 = choose|j0: int| #![trigger before[j0]] 0 <= j0 < before.len() && before[j0] == pre[m];
            assert(V::key_order(before[j0], x) != 0);
        }
    }
}

/// Collects the values in key order, the last value for each key winning:
/// the values of an ordered map filled by inserting `items` in order.
pub fn collect_last<V: KeyOrder>(items: Vec<V>) -> (r: Vec<V>)
    ensures
        collects_last(r@, items@),
{
    let ghost s = items@;
    let mut rest = items;
    let mut r: Vec<V> = Vec::new();
    while rest.len() > 0
        invariant
            rest@.len() <= s.len(),
            rest@ == s.skip(s.len() - rest@.len()),
            collects_last(r@, s.take(s.len() - rest@.len())),
        decreases rest@.len(),
    {
        let ghost i = s.len() - rest@.len();
        let ghost before = r@;
        assert(rest@[0] == s[i]);
        let x = rest.remove(0);
        insert_last(&mut r, x);
        proof {
            assert(rest@ =~= s.skip(i + 1));
            assert(s.take(i + 1) =~= s.take(i).push(x));
            lemma_collect_step_from(before, r@, s.take(i), x, s.take(i + 1));
            lemma_collect_step_covers(before, r@, s.take(i), x, s.take(i + 1));
        }
    }
    assert(s.take(s.len() as int) =~= s);
    r
}

/// Values that can be copied with the copy's view equal to the original's.
pub trait Duplicate: View + Sized {
    fn duplicate(&self) -> (r: Self)
        ensures
            r@ == self@,
    ;
}

/// `v` has the view of an element `sorted[k]`, `k < upto`, that `keep` accepts.
pub open spec fn view_among<V: KeyOrder>(
    v: V,
    sorted: Seq<V>,
    upto: int,
    keep: spec_fn(V) -> bool,
) -> bool {
    exists|k: int| #![trigger sorted[k]] 0 <= k < upto && keep(sorted[k]) && v@ == sorted[k]@
}

/// The order only sees views, on either side.
pub proof fn lemma_order_views<V: KeyOrder>(a: V, a2: V, b: V, b2: V)
    requires
        a@ == a2@,
        b@ == b2@,
    ensures
        V::key_order(a, b) == V::key_order(a2, b2),
{
    V::lemma_key_order(a, a2, b);
    V::lemma_key_order(b, b2, a2);
    V::lemma_key_order(a2, b, b2);
    V::lemma_key_order(a2, b2, b);
}

/// The invariant of `select_marked` after `i` elements of `sorted`.
pub open spec fn select_inv<V: KeyOrder>(
    r: Seq<V>,
    sorted: Seq<V>,
    i: int,
    keep: spec_fn(V) -> bool,
) -> bool {
    &&& sorted_by_key(r)
    &&& forall|m: int| 0 <= m < r.len() ==> view_among(#[trigger] r[m], sorted, i, keep)
    &&& forall|k: int|
        0 <= k < i && keep(#[trigger] sorted[k]) ==> exists|m: int|
            #![trigger r[m]]
            0 <= m < r.len() && r[m]@ == sorted[k]@
}

proof fn lemma_select_keep<V: KeyOrder>(
    before: Seq<V>,
    t: Seq<V>,
    sorted: Seq<V>,
    i: int,
    d: V,
    keep: spec_fn(V) -> bool,
)
    requires
        0 <= i < sorted.len(),
        sorted_by_key(sorted),
        select_inv(before, sorted, i, keep),
        keep(sorted[i]),
        d@ == sorted[i]@,
        t == before.push(d),
    ensures
        select_inv(t, sorted, i + 1, keep),
{
    assert forall|m: int| 0 <= m < before.len() implies V::key_order(#[trigger] before[m], d) < 0 by {
        assert(view_among(before[m], sorted, i, keep));
        let k = choose|k: int|
            #![trigger sorted[k]]
            0 <= k < i && keep(sorted[k]) && before[m]@ == sorted[k]@;
        assert(V::key_order(sorted[k], sorted[i]) < 0);
        lemma_order_views(before[m], sorted[k], d, sorted[i]);
    }
    assert forall|a: int, b: int| 0 <= a < b < t.len() implies V::key_order(
        #[trigger] t[a],
        #[trigger] t[b],
    ) < 0 by {
        if b == before.len() {
            assert(t[a] == before[a]);
        } else {
            assert(t[a] == before[a] && t[b] == before[b]);
        }
    }
    assert forall|m: int| 0 <= m < t.len() implies view_among(#[trigger] t[m], sorted, i + 1, keep) by {
        if m < before.len() {
            assert(t[m] == before[m]);
            assert(view_among(before[m], sorted, i, keep));
        } else {
            assert(t[m] == d);
            assert(sorted[i]@ == d@);
        }
    }
    assert forall|k: int| 0 <= k < i + 1 && keep(#[trigger] sorted[k]) implies exists|m: int|
        #![trigger t[m]]
        0 <= m < t.len() && t[m]@ == sorted[k]@ by {
        if k == i {
            assert(t[before.len() as int] == d);
        } else {
            let m0 = choose|m0: int| #![trigger before[m0]] 0 <= m0 < before.len() && before[m0]@ == sorted[k]@;
            assert(t[m0] == before[m0]);
        }
    }
}

proof fn lemma_select_skip<V: KeyOrder>(r: Seq<V>, sorted: Seq<V>, i: int, keep: spec_fn(V) -> bool)
    requires
        0 <= i < sorted.len(),
        select_inv(r, sorted, i, keep),
        !keep(sorted[i]),
    ensures
        select_inv(r, sorted, i + 1, keep),
{
    assert forall|m: int| 0 <= m < r.len() implies view_among(#[trigger] r[m], sorted, i + 1, keep) by {
        assert(view_among(r[m], sorted, i, keep));
    }
}

proof fn lemma_select_done<V: KeyOrder>(r: Seq<V>, sorted: Seq<V>, s: Seq<V>, keep: spec_fn(V) -> bool)
    requires
        collects_last(sorted, s),
        select_inv(r, sorted, sorted.len() as int, keep),
    ensures
        selects_last(r, s, keep),
{
    lemma_select_done_from(r, sorted, s, keep);
    lemma_select_done_covers(r, sorted, s, keep);
}

proof fn lemma_select_done_from<V: KeyOrder>(r: Seq<V>, sorted: Seq<V>, s: Seq<V>, keep: spec_fn(V) -> bool)
    requires
        from_last(sorted, s),
        forall|m: int| 0 <= m < r.len() ==> view_among(#[trigger] r[m], sorted, sorted.len() as int, keep),
    ensures
        forall|j: int| 0 <= j < r.len() ==> is_kept_last(#[trigger] r[j], s, keep),
{
    let n = sorted.len() as int;
    assert forall|j: int| 0 <= j < r.len() implies is_kept_last(#[trigger] r[j], s, keep) by {
        assert(view_among(r[j], sorted, n, keep));
        let k = choose|k: int| #![trigger sorted[k]] 0 <= k < n && keep(sorted[k]) && r[j]@ == sorted[k]@;
        assert(is_last_of(sorted[k], s));
        let i0 = choose|i0: int| #![trigger s[i0]] last_with_key(s, i0) && sorted[k] == s[i0];
        assert(keep(s[i0]));
    }
}

proof fn lemma_select_done_covers<V: KeyOrder>(r: Seq<V>, sorted: Seq<V>, s: Seq<V>, keep: spec_fn(V) -> bool)
    requires
        covers_last(sorted, s),
        forall|k: int|
            0 <= k < sorted.len() && keep(#[trigger] sorted[k]) ==> exists|m: int|
                #![trigger r[m]]
                0 <= m < r.len() && r[m]@ == sorted[k]@,
    ensures
        forall|i: int| last_with_key(s, i) && keep(#[trigger] s[i]) ==> has_view(r, s[i]),
{
    assert forall|i0: int| last_with_key(s, i0) && keep(#[trigger] s[i0]) implies has_view(r, s[i0]) by {
        assert(has_elem(sorted, s[i0]));
        let k = choose|k: int| #![trigger sorted[k]] 0 <= k < sorted.len() && sorted[k] == s[i0];
        assert(keep(sorted[k]));
        let m = choose|m: int| #![trigger r[m]] 0 <= m < r.len() && r[m]@ == sorted[k]@;
        assert(r[m]@ == s[i0]@);
    }
}

/// Copies, in order, the elements of `sorted` that are marked. When `sorted`
/// is the collection of `s` and the marks are those of `keep`, the result
/// selects the last element of `s` for each key that `keep` accepts.
pub fn select_marked<V: KeyOrder + Duplicate>(
    sorted: &Vec<V>,
    marks: &Vec<bool>,
    Ghost(s): Ghost<Seq<V>>,
    Ghost(keep): Ghost<spec_fn(V) -> bool>,
) -> (r: Vec<V>)
    requires
        collects_last(sorted@, s),
        marks@.len() == sorted@.len(),
        forall|k: int| 0 <= k < sorted@.len() ==> marks@[k] == keep(#[trigger] sorted@[k]),
    ensures
        selects_last(r@, s, keep),
{
    let n = sorted.len();
    let mut r: Vec<V> = Vec::new();
    let mut i: usize = 0;
    while i < n
        invariant
            0 <= i <= n,
            n == sorted@.len(),
            marks@.len() == n,
            forall|k: int| 0 <= k < n ==> marks@[k] == keep(#[trigger] sorted@[k]),
            sorted_by_key(sorted@),
            select_inv(r@, sorted@, i as int, keep),
        decreases n - i,
    {
        if marks[i] {
            let d = sorted[i].duplicate();
            let ghost before = r@;
            r.push(d);
            proof {
                lemma_select_keep(before, r@, sorted@, i as int, d, keep);
            }
        } else {
            proof {
                lemma_select_skip(r@, sorted@, i as int, keep);
            }
        }
        i = i + 1;
    }
    proof {
        lemma_select_done(r@, sorted@, s, keep);
    }
    r
}

/// Every element of `s` has a last element with the same key at or after it.
pub proof fn lemma_last_exists<V: KeyOrder>(s: Seq<V>, i: int)
    requires
        0 <= i < s.len(),
    ensures
        exists|k: int| i <= k < s.len() && last_with_key(s, k) && V::key_order(#[trigger] s[k], s[i]) == 0,
    decreases s.len() - i,
{
    V::lemma_key_order(s[i], s[i], s[i]);
    if last_with_key(s, i) {
        assert(V::key_order(s[i], s[i]) == 0);
    } else {
        let k = choose|k: int| i < k < s.len() && V::key_order(#[trigger] s[k], s[i]) == 0;
        lemma_last_exists(s, k);
        let k2 = choose|k2: int| k <= k2 < s.len() && last_with_key(s, k2) && V::key_order(#[trigger] s[k2], s[k]) == 0;
        V::lemma_key_order(s[k2], s[k], s[i]);
        V::lemma_key_order(s[i], s[k], s[k2]);
        V::lemma_key_order(s[k2], s[i], s[i]);
    }
}

} // verus!
