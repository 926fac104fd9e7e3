//! The byte-wise lexicographic order of strings (the order of `str::cmp`)
//! and the sorting that the plugin index and grant lists use.
use vstd::prelude::*;
use vstd::relations::sorted_by;

verus! {

broadcast use vstd::seq_lib::group_to_multiset_ensures;

/// `a` sorts before or equal to `b` when both are compared byte by byte,
/// a proper prefix sorting first.
pub open spec fn text_le(a: Seq<u8>, b: Seq<u8>) -> bool
    decreases a.len(),
{
    if a.len() == 0 {
        true
    } else if b.len() == 0 {
        false
    } else if a[0] != b[0] {
        a[0] < b[0]
    } else {
        text_le(a.drop_first(), b.drop_first())
    }
}

/// `a` sorts strictly before `b`.
pub open spec fn text_lt(a: Seq<u8>, b: Seq<u8>) -> bool {
    text_le(a, b) && a != b
}

/// Every byte string sorts before or equal to itself.
pub proof fn lemma_text_le_reflexive(a: Seq<u8>)
    ensures
        text_le(a, a),
    decreases a.len(),
{
    if a.len() > 0 {
        lemma_text_le_reflexive(a.drop_first());
    }
}

/// Any two byte strings are ordered one way or the other.
pub proof fn lemma_text_le_total(a: Seq<u8>, b: Seq<u8>)
    ensures
        text_le(a, b) || text_le(b, a),
    decreases a.len(),
{
    if a.len() > 0 && b.len() > 0 && a[0] == b[0] {
        lemma_text_le_total(a.drop_first(), b.drop_first());
    }
}

/// The order is transitive.
pub proof fn lemma_text_le_transitive(a: Seq<u8>, b: Seq<u8>, c: Seq<u8>)
    requires
        text_le(a, b),
        text_le(b, c),
    ensures
        text_le(a, c),
    decreases a.len(),
{
    if a.len() > 0 && b.len() > 0 && c.len() > 0 && a[0] == b[0] && b[0] == c[0] {
        lemma_text_le_transitive(a.drop_first(), b.drop_first(), c.drop_first());
    }
}

/// The order is antisymmetric.
pub proof fn lemma_text_le_antisymmetric(a: Seq<u8>, b: Seq<u8>)
    requires
        text_le(a, b),
        text_le(b, a),
    ensures
        a == b,
    decreases a.len(),
{
    if a.len() > 0 && b.len() > 0 {
        lemma_text_le_antisymmetric(a.drop_first(), b.drop_first());
        assert(a =~= seq![a[0]] + a.drop_first());
        assert(b =~= seq![b[0]] + b.drop_first());
    }
}

/// Whether `a` sorts before or equal to `b`.
pub fn bytes_le(a: &[u8], b: &[u8]) -> (res: bool)
    ensures
        res == text_le(a@, b@),
{
    let mut i: usize = 0;
    assert(a@.skip(0) =~= a@);
    assert(b@.skip(0) =~= b@);
    while i < a.len() && i < b.len()
        invariant
            i <= a.len(),
            i <= b.len(),
            text_le(a@, b@) == text_le(a@.skip(i as int), b@.skip(i as int)),
        decreases a.len() - i,
    {
        assert(a@.skip(i as int)[0] == a@[i as int]);
        assert(b@.skip(i as int)[0] == b@[i as int]);
        if a[i] != b[i] {
            return a[i] < b[i];
        }
        assert(a@.skip(i as int).drop_first() =~= a@.skip(i + 1));
        assert(b@.skip(i as int).drop_first() =~= b@.skip(i + 1));
        i = i + 1;
    }
    i == a.len()
}

/// Whether two byte strings are equal.
pub fn bytes_eq(a: &[u8], b: &[u8]) -> (res: bool)
    ensures
        res == (a@ == b@),
{
    if a.len() != b.len() {
        return false;
    }
    let mut i: usize = 0;
    while i < a.len()
        invariant
            a.len() == b.len(),
            i <= a.len(),
            forall|j: int| 0 <= j < i ==> a@[j] == b@[j],
        decreases a.len() - i,
    {
        if a[i] != b[i] {
            return false;
        }
        i = i + 1;
    }
    assert(a@ =~= b@);
    true
}

/// A value ordered by a text key (compared as bytes).
pub trait TextKeyed {
    /// The bytes by which the value is ordered.
    spec fn key_text(&self) -> Seq<u8>;

    /// The bytes by which the value is ordered.
    fn key_bytes(&self) -> (res: &[u8])
        ensures
            res@ == self.key_text(),
    ;
}

/// Ordered by key text, equal keys in either order.
pub open spec fn by_key<T: TextKeyed>() -> spec_fn(T, T) -> bool {
    |x: T, y: T| text_le(x.key_text(), y.key_text())
}

/// The key texts of a sequence of keyed values.
pub open spec fn key_texts<T: TextKeyed>(s: Seq<T>) -> Seq<Seq<u8>> {
    s.map_values(|x: T| x.key_text())
}

/// Key texts strictly increase along `s`.
pub open spec fn strictly_increasing<T: TextKeyed>(s: Seq<T>) -> bool {
    forall|i: int, j: int| 0 <= i < j < s.len() ==> text_lt(
        #[trigger] s[i].key_text(),
        #[trigger] s[j].key_text(),
    )
}

/// Inserting an element anywhere adds it to the set of elements.
pub proof fn lemma_insert_to_set<A>(s: Seq<A>, i: int, x: A)
    requires
        0 <= i <= s.len(),
    ensures
        s.insert(i, x).to_set() == s.to_set().insert(x),
{
    let t = s.insert(i, x);
    assert forall|e: A| t.to_set().contains(e) <==> s.to_set().insert(x).contains(e) by {
        if t.to_set().contains(e) {
            let k = choose|k: int| 0 <= k < t.len() && t[k] == e;
            if k < i {
                assert(s[k] == e);
            } else if k > i {
                assert(s[k - 1] == e);
            }
        }
        if s.to_set().contains(e) {
            let k = choose|k: int| 0 <= k < s.len() && s[k] == e;
            if k < i {
                assert(t[k] == e);
            } else {
                assert(t[k + 1] == e);
            }
        }
        if e == x {
            assert(t[i] == x);
        }
    }
    assert(t.to_set() =~= s.to_set().insert(x));
}


/// Values whose key text is `k`.
pub open spec fn key_is<T: TextKeyed>(k: Seq<u8>) -> spec_fn(T) -> bool {
    |x: T| x.key_text() == k
}

/// Filtering after inserting `x` at `p`, where no element from `p` on
/// passes the filter if `x` does.
pub proof fn lemma_filter_insert<A>(s: Seq<A>, p: int, x: A, pred: spec_fn(A) -> bool)
    requires
        0 <= p <= s.len(),
        pred(x) ==> forall|j: int| p <= j < s.len() ==> !pred(#[trigger] s[j]),
    ensures
        s.insert(p, x).filter(pred) == (if pred(x) {
            s.filter(pred).push(x)
        } else {
            s.filter(pred)
        }),
    decreases s.len(),
{
    reveal(Seq::filter);
    let t = s.insert(p, x);
    if p == s.len() {
        assert(t.drop_last() =~= s);
        assert(t.last() == x);
    } else {
        let d = s.drop_last();
        assert(t.drop_last() =~= d.insert(p, x));
        assert(t.last() == s.last());
        assert(pred(x) ==> forall|j: int| p <= j < d.len() ==> !pred(#[trigger] d[j])) by {
            if pred(x) {
                assert forall|j: int| p <= j < d.len() implies !pred(#[trigger] d[j]) by {
                    assert(d[j] == s[j]);
                }
            }
        }
        lemma_filter_insert(d, p, x, pred);
        if pred(x) {
            assert(!pred(s[s.len() - 1]));
        }
    }
}

/// Filtering after appending `x`.
pub proof fn lemma_filter_push<A>(s: Seq<A>, x: A, pred: spec_fn(A) -> bool)
    ensures
        s.push(x).filter(pred) == (if pred(x) {
            s.filter(pred).push(x)
        } else {
            s.filter(pred)
        }),
{
    reveal(Seq::filter);
    assert(s.push(x).drop_last() =~= s);
}


/// Two elements that pass a filter make it keep at least two.
pub proof fn lemma_filter_two<A>(s: Seq<A>, pred: spec_fn(A) -> bool, i: int, j: int)
    requires
        0 <= i < j < s.len(),
        pred(s[i]),
        pred(s[j]),
    ensures
        s.filter(pred).len() >= 2,
    decreases s.len(),
{
    reveal(Seq::filter);
    let d = s.drop_last();
    if j == s.len() - 1 {
        assert(d[i] == s[i]);
        d.lemma_filter_contains(pred, i);
        assert(d.filter(pred).len() >= 1);
    } else {
        assert(d[i] == s[i] && d[j] == s[j]);
        lemma_filter_two(d, pred, i, j);
    }
}

/// A filter that keeps two elements found them at two positions.
pub proof fn lemma_filter_two_positions<A>(s: Seq<A>, pred: spec_fn(A) -> bool)
    requires
        s.filter(pred).len() >= 2,
    ensures
        exists|i: int, j: int| 0 <= i < j < s.len() && pred(s[i]) && pred(s[j]),
    decreases s.len(),
{
    reveal(Seq::filter);
    let d = s.drop_last();
    if pred(s.last()) {
        assert(d.filter(pred).len() >= 1);
        d.lemma_filter_pred(pred, 0);
        let x = d.filter(pred)[0];
        lemma_filter_member(d, pred, x);
        let i = choose|i: int| 0 <= i < d.len() && d[i] == x;
        assert(s[i] == x && pred(s[i]) && pred(s[s.len() - 1]));
    } else {
        lemma_filter_two_positions(d, pred);
        let (i, j) = choose|i: int, j: int| 0 <= i < j < d.len() && pred(d[i]) && pred(d[j]);
        assert(s[i] == d[i] && s[j] == d[j]);
    }
}

/// What a filter keeps is an element of the filtered sequence.
pub proof fn lemma_filter_member<A>(s: Seq<A>, pred: spec_fn(A) -> bool, x: A)
    requires
        s.filter(pred).contains(x),
    ensures
        s.contains(x),
    decreases s.len(),
{
    reveal(Seq::filter);
    if s.len() > 0 {
        let d = s.drop_last();
        if pred(s.last()) && x == s.last() {
            assert(s[s.len() - 1] == x);
        } else {
            if pred(s.last()) {
                let f = d.filter(pred).push(s.last());
                let k = choose|k: int| 0 <= k < f.len() && f[k] == x;
                assert(d.filter(pred)[k] == x);
            }
            lemma_filter_member(d, pred, x);
            let k = choose|k: int| 0 <= k < d.len() && d[k] == x;
            assert(s[k] == x);
        }
    }
}

/// Two filters commute.
pub proof fn lemma_filter_commutes<A>(s: Seq<A>, p: spec_fn(A) -> bool, q: spec_fn(A) -> bool)
    ensures
        s.filter(p).filter(q) == s.filter(q).filter(p),
    decreases s.len(),
{
    reveal(Seq::filter);
    if s.len() > 0 {
        let d = s.drop_last();
        let x = s.last();
        lemma_filter_commutes(d, p, q);
        lemma_filter_push(d.filter(p), x, q);
        lemma_filter_push(d.filter(q), x, p);
    }
}

/// With distinct key texts, at most one value has a given key text.
pub proof fn lemma_distinct_keys_filter<T: TextKeyed>(s: Seq<T>, k: Seq<u8>)
    requires
        key_texts(s).no_duplicates(),
    ensures
        s.filter(key_is::<T>(k)).len() <= 1,
{
    if s.filter(key_is::<T>(k)).len() >= 2 {
        lemma_filter_two_positions(s, key_is::<T>(k));
        let (i, j) = choose|i: int, j: int|
            0 <= i < j < s.len() && key_is::<T>(k)(s[i]) && key_is::<T>(k)(s[j]);
        assert(key_texts(s)[i] == key_texts(s)[j]);
    }
}

/// The position after every element of the sorted `v` whose key sorts
/// before or equal to `x`.
fn upper_position<T: TextKeyed>(v: &Vec<T>, x: &T) -> (p: usize)
    requires
        sorted_by(v@, by_key::<T>()),
    ensures
        p <= v.len(),
        forall|i: int| 0 <= i < p ==> text_le(v@[i].key_text(), x.key_text()),
        forall|j: int| p <= j < v.len() ==> text_lt(x.key_text(), v@[j].key_text()),
{
    let mut p: usize = 0;
    let xk = x.key_bytes();
    while p < v.len()
        invariant
            p <= v.len(),
            xk@ == x.key_text(),
            sorted_by(v@, by_key::<T>()),
            forall|i: int| 0 <= i < p ==> text_le(v@[i].key_text(), x.key_text()),
        decreases v.len() - p,
    {
        if !bytes_le(v[p].key_bytes(), xk) {
            proof {
                lemma_text_le_total(v@[p as int].key_text(), x.key_text());
                assert forall|j: int| p <= j < v.len() implies text_lt(
                    x.key_text(),
                    v@[j].key_text(),
                ) by {
                    assert(by_key::<T>()(v@[p as int], v@[j]) || j == p);
                    if j != p {
                        lemma_text_le_transitive(
                            x.key_text(),
                            v@[p as int].key_text(),
                            v@[j].key_text(),
                        );
                    }
                    if x.key_text() == v@[j].key_text() {
                        if j != p {
                            lemma_text_le_antisymmetric(v@[p as int].key_text(), x.key_text());
                        }
                    }
                }
            }
            return p;
        }
        p = p + 1;
    }
    p
}

/// Sorts `v` by key text, stably: values with equal keys keep their order.
pub fn sort_by_key<T: TextKeyed>(v: Vec<T>) -> (res: Vec<T>)
    ensures
        sorted_by(res@, by_key::<T>()),
        res@.to_multiset() == v@.to_multiset(),
        forall|k: Seq<u8>| #[trigger] res@.filter(key_is::<T>(k)) == v@.filter(key_is::<T>(k)),
{
    let ghost orig = v@;
    let mut rest = v;
    let mut res: Vec<T> = Vec::new();
    let ghost all = rest@.to_multiset();
    let ghost mut n: int = 0;
    assert(orig.take(0) =~= Seq::<T>::empty());
    assert(orig.skip(0) =~= orig);
    proof {
        reveal(Seq::filter);
    }
    while rest.len() > 0
        invariant
            0 <= n <= orig.len(),
            rest@ == orig.skip(n),
            all == orig.to_multiset(),
            sorted_by(res@, by_key::<T>()),
            res@.to_multiset().add(rest@.to_multiset()) == all,
            forall|k: Seq<u8>| #[trigger] res@.filter(key_is::<T>(k)) == orig.take(n).filter(
                key_is::<T>(k),
            ),
        decreases rest.len(),
    {
        let ghost rest_before = rest@;
        let x = rest.remove(0);
        assert(rest_before.to_multiset() == rest@.to_multiset().insert(x)) by {
            assert(rest_before =~= rest@.insert(0, x));
        }
        assert(orig.skip(n)[0] == x);
        assert(orig.skip(n).drop_first() =~= orig.skip(n + 1));
        assert(orig.take(n + 1) =~= orig.take(n).push(x));
        let p = upper_position(&res, &x);
        let ghost before = res@;
        res.insert(p, x);
        assert(res@ == before.insert(p as int, x));
        assert forall|i: int, j: int| 0 <= i < j < res@.len() implies #[trigger] by_key::<T>()(
            res@[i],
            res@[j],
        ) by {
            if j < p {
                assert(res@[i] == before[i] && res@[j] == before[j]);
            } else if j == p {
                assert(res@[i] == before[i]);
            } else if i < p {
                assert(res@[i] == before[i] && res@[j] == before[j - 1]);
                lemma_text_le_transitive(
                    before[i].key_text(),
                    x.key_text(),
                    before[j - 1].key_text(),
                );
            } else if i == p {
                assert(res@[j] == before[j - 1]);
            } else {
                assert(res@[i] == before[i - 1] && res@[j] == before[j - 1]);
            }
        }
        assert forall|k: Seq<u8>| #[trigger] res@.filter(key_is::<T>(k)) == orig.take(n + 1).filter(
            key_is::<T>(k),
        ) by {
            lemma_filter_insert(before, p as int, x, key_is::<T>(k));
            lemma_filter_push(orig.take(n), x, key_is::<T>(k));
        }
        proof {
            n = n + 1;
        }
    }
    assert(orig.take(n) =~= orig);
    res
}

/// Values of `v` with distinct key texts, in strictly increasing key order,
/// one for each key text that occurs in `v`.
pub fn sorted_distinct<T: TextKeyed>(v: Vec<T>) -> (res: Vec<T>)
    ensures
        strictly_increasing(res@),
        key_texts(res@).to_set() == key_texts(v@).to_set(),
{
    let mut rest = v;
    let mut res: Vec<T> = Vec::new();
    let ghost all = key_texts(rest@).to_set();
    while rest.len() > 0
        invariant
            strictly_increasing(res@),
            sorted_by(res@, by_key::<T>()),
            key_texts(res@).to_set().union(key_texts(rest@).to_set()) == all,
        decreases rest.len(),
    {
        let ghost rest_before = rest@;
        let x = rest.remove(0);
        assert(key_texts(rest_before).to_set() == key_texts(rest@).to_set().insert(x.key_text())) by {
            assert(rest_before =~= rest@.insert(0, x));
            assert(key_texts(rest_before) =~= key_texts(rest@).insert(0, x.key_text()));
            lemma_insert_to_set(key_texts(rest@), 0, x.key_text());
        }
        let p = upper_position(&res, &x);
        let ghost before = res@;
        let duplicate = p > 0 && bytes_eq(res[p - 1].key_bytes(), x.key_bytes());
        if duplicate {
            assert(key_texts(res@).to_set().contains(x.key_text())) by {
                assert(key_texts(res@)[p - 1] == x.key_text());
            }
            assert(key_texts(res@).to_set().union(key_texts(rest@).to_set()) =~= all);
        } else {
            res.insert(p, x);
            assert(res@ == before.insert(p as int, x));
            proof {
                if p > 0 {
                    lemma_text_le_reflexive(x.key_text());
                }
            }
            assert forall|i: int, j: int| 0 <= i < j < res@.len() implies text_lt(
                #[trigger] res@[i].key_text(),
                #[trigger] res@[j].key_text(),
            ) && by_key::<T>()(res@[i], res@[j]) by {
                if j < p {
                    assert(res@[i] == before[i] && res@[j] == before[j]);
                } else if j == p {
                    assert(res@[i] == before[i]);
                    if i < p - 1 {
                        assert(by_key::<T>()(before[i], before[p - 1]));
                        assert(text_lt(before[i].key_text(), before[p - 1].key_text()));
                        lemma_text_le_transitive(
                            before[i].key_text(),
                            before[p - 1].key_text(),
                            x.key_text(),
                        );
                        if before[i].key_text() == x.key_text() {
                            lemma_text_le_antisymmetric(
                                before[i].key_text(),
                                before[p - 1].key_text(),
                            );
                        }
                    }
                } else if i < p {
                    assert(res@[i] == before[i] && res@[j] == before[j - 1]);
                    lemma_text_le_transitive(
                        before[i].key_text(),
                        x.key_text(),
                        before[j - 1].key_text(),
                    );
                    if before[i].key_text() == before[j - 1].key_text() {
                        lemma_text_le_antisymmetric(before[i].key_text(), x.key_text());
                    }
                } else if i == p {
                    assert(res@[j] == before[j - 1]);
                } else {
                    assert(res@[i] == before[i - 1] && res@[j] == before[j - 1]);
                }
            }
            assert(key_texts(res@) =~= key_texts(before).insert(p as int, x.key_text()));
            proof {
                lemma_insert_to_set(key_texts(before), p as int, x.key_text());
            }
            assert(key_texts(res@).to_set().union(key_texts(rest@).to_set()) =~= all);
        }
    }
    assert(key_texts(rest@).to_set() =~= Set::<Seq<u8>>::empty());
    assert(key_texts(res@).to_set().union(Set::<Seq<u8>>::empty()) =~= key_texts(res@).to_set());
    res
}


/// Byte strings that strictly increase along `s`.
spec fn texts_increase(s: Seq<Seq<u8>>) -> bool {
    forall|i: int, j: int| 0 <= i < j < s.len() ==> text_lt(#[trigger] s[i], #[trigger] s[j])
}

/// Two strictly increasing sequences of byte strings with the same elements
/// are equal.
proof fn lemma_increasing_texts_unique(s: Seq<Seq<u8>>, t: Seq<Seq<u8>>)
    requires
        texts_increase(s),
        texts_increase(t),
        s.to_set() == t.to_set(),
    ensures
        s == t,
    decreases s.len(),
{
    if s.len() == 0 {
        if t.len() > 0 {
            assert(t.to_set().contains(t[0]));
        }
        assert(s =~= t);
    } else {
        assert(s.to_set().contains(s[0]));
        assert(t.contains(s[0]));
        let j = choose|j: int| 0 <= j < t.len() && t[j] == s[0];
        assert(t.to_set().contains(t[0]));
        assert(s.contains(t[0]));
        let i = choose|i: int| 0 <= i < s.len() && s[i] == t[0];
        if j > 0 {
            assert(text_lt(t[0], t[j]));
            if i > 0 {
                assert(text_lt(s[0], s[i]));
                lemma_text_le_antisymmetric(s[0], t[0]);
            }
            assert(false);
        }
        let s1 = s.drop_first();
        let t1 = t.drop_first();
        assert(s1.to_set() =~= t1.to_set()) by {
            assert forall|x: Seq<u8>| s1.to_set().contains(x) implies t1.to_set().contains(x) by {
                let a = choose|a: int| 0 <= a < s1.len() && s1[a] == x;
                assert(s.to_set().contains(s[a + 1]));
                assert(t.contains(x));
                let b = choose|b: int| 0 <= b < t.len() && t[b] == x;
                if b == 0 {
                    assert(text_lt(s[0], s[a + 1]));
                }
                assert(t1[b - 1] == x);
            }
            assert forall|x: Seq<u8>| t1.to_set().contains(x) implies s1.to_set().contains(x) by {
                let a = choose|a: int| 0 <= a < t1.len() && t1[a] == x;
                assert(t.to_set().contains(t[a + 1]));
                assert(s.contains(x));
                let b = choose|b: int| 0 <= b < s.len() && s[b] == x;
                if b == 0 {
                    assert(text_lt(t[0], t[a + 1]));
                }
                assert(s1[b - 1] == x);
            }
        }
        assert(texts_increase(s1)) by {
            assert forall|a: int, b: int| 0 <= a < b < s1.len() implies text_lt(
                #[trigger] s1[a],
                #[trigger] s1[b],
            ) by {
                assert(text_lt(s[a + 1], s[b + 1]));
            }
        }
        assert(texts_increase(t1)) by {
            assert forall|a: int, b: int| 0 <= a < b < t1.len() implies text_lt(
                #[trigger] t1[a],
                #[trigger] t1[b],
            ) by {
                assert(text_lt(t[a + 1], t[b + 1]));
            }
        }
        lemma_increasing_texts_unique(s1, t1);
        assert(s =~= t) by {
            assert forall|k: int| 0 <= k < s.len() implies s[k] == t[k] by {
                if k > 0 {
                    assert(s[k] == s1[k - 1]);
                    assert(t[k] == t1[k - 1]);
                }
            }
        }
    }
}

/// Keyed sequences whose keys strictly increase are determined by the set
/// of their keys.
pub proof fn lemma_increasing_keys_determined_by_set<T: TextKeyed>(s: Seq<T>, t: Seq<T>)
    requires
        strictly_increasing(s),
        strictly_increasing(t),
        key_texts(s).to_set() == key_texts(t).to_set(),
    ensures
        key_texts(s) == key_texts(t),
{
    let ks = key_texts(s);
    let kt = key_texts(t);
    assert(texts_increase(ks)) by {
        assert forall|i: int, j: int| 0 <= i < j < ks.len() implies text_lt(
            #[trigger] ks[i],
            #[trigger] ks[j],
        ) by {
            assert(text_lt(s[i].key_text(), s[j].key_text()));
        }
    }
    assert(texts_increase(kt)) by {
        assert forall|i: int, j: int| 0 <= i < j < kt.len() implies text_lt(
            #[trigger] kt[i],
            #[trigger] kt[j],
        ) by {
            assert(text_lt(t[i].key_text(), t[j].key_text()));
        }
    }
    lemma_increasing_texts_unique(ks, kt);
}

} // verus!
