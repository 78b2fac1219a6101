//! The order in which accounts are listed: by email, then by workspace id,
//! comparing text as Rust's `str` ordering does.

use vstd::prelude::*;
use crate::text::chars_of;

verus! {

/// Whether `a` sorts strictly before `b`. `str` compares UTF-8 bytes, which
/// orders text as its code points do.
pub open spec fn text_before(a: Seq<char>, b: Seq<char>) -> bool
    decreases a.len(),
{
    if b.len() == 0 {
        false
    } else if a.len() == 0 {
        true
    } else if a[0] != b[0] {
        (a[0] as int) < (b[0] as int)
    } else {
        text_before(a.drop_first(), b.drop_first())
    }
}

/// `a < b` on string slices.
pub fn text_less(a: &str, b: &str) -> (res: bool)
    ensures
        res == text_before(a@, b@),
{
    let x = chars_of(a);
    let y = chars_of(b);
    let mut i: usize = 0;
    assert(x@.skip(0) =~= x@ && y@.skip(0) =~= y@);
    while i < x.len() && i < y.len()
        invariant
            i <= x.len(),
            i <= y.len(),
            x@ == a@,
            y@ == b@,
            text_before(a@, b@) == text_before(x@.skip(i as int), y@.skip(i as int)),
        decreases x.len() - i,
    {
        assert(x@.skip(i as int)[0] == x@[i as int] && y@.skip(i as int)[0] == y@[i as int]);
        if x[i] != y[i] {
            return x[i] < y[i];
        }
        assert(x@.skip(i as int).drop_first() =~= x@.skip(i + 1));
        assert(y@.skip(i as int).drop_first() =~= y@.skip(i + 1));
        i = i + 1;
    }
    i < y.len()
}

/// Values listed by a pair of texts: email first, workspace id second.
pub trait AccountOrder {
    spec fn first_key(&self) -> Seq<char>;

    spec fn second_key(&self) -> Seq<char>;

    fn first_text(&self) -> (res: &str)
        ensures
            res@ == self.first_key(),
    ;

    fn second_text(&self) -> (res: &str)
        ensures
            res@ == self.second_key(),
    ;
}

/// Whether `x` may stand before `y`: its key pair is not greater.
pub open spec fn key_le<T: AccountOrder>(x: T, y: T) -> bool {
    text_before(x.first_key(), y.first_key()) || (x.first_key() == y.first_key()
        && !text_before(y.second_key(), x.second_key()))
}

/// `s` with `x` placed after the last element that may stand before it, as a
/// stable sort places a later element.
pub open spec fn insert_sorted<T: AccountOrder>(s: Seq<T>, x: T) -> Seq<T>
    decreases s.len(),
{
    if s.len() == 0 {
        seq![x]
    } else if key_le(s.last(), x) {
        s.push(x)
    } else {
        insert_sorted(s.drop_last(), x).push(s.last())
    }
}

/// What a stable sort by key pair (`sort_by` with that order) makes of `s`.
pub open spec fn sorted_by_key<T: AccountOrder>(s: Seq<T>) -> Seq<T>
    decreases s.len(),
{
    if s.len() == 0 {
        Seq::empty()
    } else {
        insert_sorted(sorted_by_key(s.drop_last()), s.last())
    }
}

fn le_exec<T: AccountOrder>(x: &T, y: &T) -> (res: bool)
    ensures
        res == key_le(*x, *y),
{
    if text_less(x.first_text(), y.first_text()) {
        return true;
    }
    crate::text::same_text(x.first_text(), y.first_text()) && !text_less(
        y.second_text(),
        x.second_text(),
    )
}

/// Places `x` into `v` as `insert_sorted` does.
pub fn insert_by_key<T: AccountOrder>(v: &mut Vec<T>, x: T)
    ensures
        final(v)@ == insert_sorted(old(v)@, x),
{
    let ghost s = v@;
    let mut p = v.len();
    assert(s.take(p as int) =~= s && s.skip(p as int) =~= Seq::<T>::empty());
    while p > 0 && !le_exec(&v[p - 1], &x)
        invariant
            p <= v.len(),
            v@ == s,
            insert_sorted(s, x) == insert_sorted(s.take(p as int), x) + s.skip(p as int),
        decreases p,
    {
        let ghost t = s.take(p as int);
        assert(t.drop_last() =~= s.take(p - 1));
        assert(t.last() == s[p - 1]);
        assert(s.skip(p - 1) =~= seq![s[p - 1]] + s.skip(p as int));
        assert(insert_sorted(t, x) == insert_sorted(s.take(p - 1), x).push(s[p - 1]));
        assert(insert_sorted(s.take(p - 1), x).push(s[p - 1]) + s.skip(p as int) =~= insert_sorted(
            s.take(p - 1),
            x,
        ) + s.skip(p - 1));
        p = p - 1;
    }
    proof {
        let t = s.take(p as int);
        if p > 0 {
            assert(t.last() == s[p - 1]);
        }
        assert(insert_sorted(t, x) =~= t.push(x));
    }
    v.insert(p, x);
    assert(v@ =~= s.take(p as int).push(x) + s.skip(p as int));
}

/// A stable sort by the key-pair order.
pub fn sort_by_key<T: AccountOrder>(v: Vec<T>) -> (res: Vec<T>)
    ensures
        res@ == sorted_by_key(v@),
{
    let ghost s = v@;
    let n = v.len();
    let mut rest = v;
    let mut out: Vec<T> = Vec::new();
    let mut k: usize = 0;
    assert(s.take(0) =~= Seq::<T>::empty());
    assert(s.skip(0) =~= s);
    while rest.len() > 0
        invariant
            k <= s.len(),
            rest@ == s.skip(k as int),
            rest.len() + k == s.len(),
            s.len() == n,
            out@ == sorted_by_key(s.take(k as int)),
        decreases rest.len(),
    {
        let x = rest.remove(0);
        assert(x == s[k as int]);
        assert(s.take(k + 1).drop_last() =~= s.take(k as int));
        insert_by_key(&mut out, x);
        assert(rest@ =~= s.skip(k + 1));
        k = k + 1;
    }
    assert(s.take(k as int) =~= s);
    out
}


/// Inserting keeps every element and adds `x`.
pub proof fn lemma_insert_sorted_multiset<T: AccountOrder>(s: Seq<T>, x: T)
    ensures
        insert_sorted(s, x).to_multiset() == s.to_multiset().insert(x),
    decreases s.len(),
{
    broadcast use vstd::seq_lib::group_to_multiset_ensures;

    if s.len() == 0 {
        assert(seq![x] =~= Seq::<T>::empty().push(x));
    } else if key_le(s.last(), x) {
    } else {
        lemma_insert_sorted_multiset(s.drop_last(), x);
        assert(s.drop_last().push(s.last()) =~= s);
        assert(s.to_multiset() == s.drop_last().to_multiset().insert(s.last()));
        assert(insert_sorted(s, x).to_multiset() =~= s.to_multiset().insert(x));
    }
}

/// Sorting keeps the same elements, each as often as before.
pub proof fn lemma_sorted_by_key_multiset<T: AccountOrder>(s: Seq<T>)
    ensures
        sorted_by_key(s).to_multiset() == s.to_multiset(),
    decreases s.len(),
{
    broadcast use vstd::seq_lib::group_to_multiset_ensures;

    if s.len() > 0 {
        lemma_sorted_by_key_multiset(s.drop_last());
        lemma_insert_sorted_multiset(sorted_by_key(s.drop_last()), s.last());
        assert(s.drop_last().push(s.last()) =~= s);
    } else {
        assert(sorted_by_key(s).to_multiset() =~= s.to_multiset());
    }
}

/// Sorting keeps exactly the elements there were.
pub proof fn lemma_sorted_by_key_contains<T: AccountOrder>(s: Seq<T>, x: T)
    ensures
        sorted_by_key(s).contains(x) == s.contains(x),
{
    broadcast use vstd::seq_lib::group_to_multiset_ensures;

    lemma_sorted_by_key_multiset(s);
    assert(sorted_by_key(s).contains(x) <==> sorted_by_key(s).to_multiset().count(x) > 0);
    assert(s.contains(x) <==> s.to_multiset().count(x) > 0);
}


/// Text order is transitive.
pub proof fn lemma_text_before_transitive(a: Seq<char>, b: Seq<char>, c: Seq<char>)
    requires
        text_before(a, b),
        text_before(b, c),
    ensures
        text_before(a, c),
    decreases a.len(),
{
    if a.len() > 0 && b.len() > 0 && c.len() > 0 && a[0] == b[0] && b[0] == c[0] {
        lemma_text_before_transitive(a.drop_first(), b.drop_first(), c.drop_first());
    }
}

/// Text order is irreflexive.
pub proof fn lemma_text_before_irreflexive(a: Seq<char>)
    ensures
        !text_before(a, a),
    decreases a.len(),
{
    if a.len() > 0 {
        lemma_text_before_irreflexive(a.drop_first());
    }
}

/// The position of a greatest text.
fn greatest_index(names: &Vec<String>) -> (res: usize)
    requires
        names@.len() > 0,
    ensures
        res < names@.len(),
        forall|j: int| 0 <= j < names@.len() ==> !text_before(names@[res as int]@, #[trigger] names@[j]@),
{
    let mut best: usize = 0;
    let mut i: usize = 1;
    proof {
        lemma_text_before_irreflexive(names@[0]@);
    }
    while i < names.len()
        invariant
            1 <= i <= names@.len(),
            best < i,
            forall|j: int| 0 <= j < i ==> !text_before(names@[best as int]@, #[trigger] names@[j]@),
        decreases names.len() - i,
    {
        if text_less(names[best].as_str(), names[i].as_str()) {
            proof {
                let nb = names@[i as int]@;
                assert forall|j: int| 0 <= j < i + 1 implies !text_before(nb, #[trigger] names@[j]@) by {
                    if j < i && text_before(nb, names@[j]@) {
                        lemma_text_before_transitive(names@[best as int]@, nb, names@[j]@);
                    }
                    if j == i {
                        lemma_text_before_irreflexive(nb);
                    }
                }
            }
            best = i;
        }
        i = i + 1;
    }
    best
}

/// The texts in descending order, as sorting by `Reverse` of the text does.
pub fn descending_names(names: Vec<String>) -> (res: Vec<String>)
    ensures
        res@.to_multiset() == names@.to_multiset(),
        forall|i: int, j: int| 0 <= i < j < res@.len() ==> !text_before(#[trigger] res@[i]@, #[trigger] res@[j]@),
{
    broadcast use vstd::seq_lib::group_to_multiset_ensures;
    broadcast use vstd::multiset::group_multiset_axioms;

    let ghost all = names@;
    let mut rest = names;
    let mut out: Vec<String> = Vec::new();
    while rest.len() > 0
        invariant
            out@.to_multiset().add(rest@.to_multiset()) == all.to_multiset(),
            forall|i: int, j: int| 0 <= i < j < out@.len() ==> !text_before(#[trigger] out@[i]@, #[trigger] out@[j]@),
            forall|i: int, j: int| 0 <= i < out@.len() && 0 <= j < rest@.len() ==> !text_before(#[trigger] out@[i]@, #[trigger] rest@[j]@),
        decreases rest.len(),
    {
        let ghost before_rest = rest@;
        let ghost before_out = out@;
        let b = greatest_index(&rest);
        let top = rest.remove(b);
        assert(top == before_rest[b as int]);
        assert(before_rest.remove(b as int) == rest@);
        assert forall|j: int| 0 <= j < rest@.len() implies !text_before(top@, #[trigger] rest@[j]@) by {
            if j < b {
                assert(rest@[j] == before_rest[j]);
            } else {
                assert(rest@[j] == before_rest[j + 1]);
            }
        }
        assert forall|i: int, j: int| 0 <= i < before_out.len() && 0 <= j < rest@.len() implies !text_before(#[trigger] before_out[i]@, #[trigger] rest@[j]@) by {
            if j < b {
                assert(rest@[j] == before_rest[j]);
            } else {
                assert(rest@[j] == before_rest[j + 1]);
            }
        }
        out.push(top);
        assert(out@ == before_out.push(top));
        proof {
            before_out.to_multiset_ensures();
        }
        assert(out@.to_multiset() == before_out.to_multiset().insert(top));
        proof {
            before_rest.to_multiset_ensures();
        }
        assert(before_rest.remove(b as int).to_multiset() =~= before_rest.to_multiset().remove(before_rest[b as int]));
        assert(rest@.to_multiset() == before_rest.to_multiset().remove(top));
        assert(before_rest[b as int] == top);
        assert(before_rest.contains(top));
        assert(before_rest.to_multiset().count(top) > 0);
        assert(before_rest.to_multiset() =~= rest@.to_multiset().insert(top));
        assert(out@.to_multiset().add(rest@.to_multiset()) =~= before_out.to_multiset().add(before_rest.to_multiset()));
    }
    assert(rest@.to_multiset() =~= vstd::multiset::Multiset::empty());
    assert(out@.to_multiset() =~= all.to_multiset());
    out
}


/// Text order is asymmetric.
pub proof fn lemma_text_before_asymmetric(a: Seq<char>, b: Seq<char>)
    ensures
        !(text_before(a, b) && text_before(b, a)),
    decreases a.len(),
{
    if a.len() > 0 && b.len() > 0 && a[0] == b[0] {
        lemma_text_before_asymmetric(a.drop_first(), b.drop_first());
    }
}

/// Two different texts are ordered one way or the other.
pub proof fn lemma_text_before_total(a: Seq<char>, b: Seq<char>)
    ensures
        a == b || text_before(a, b) || text_before(b, a),
    decreases a.len(),
{
    if a.len() > 0 && b.len() > 0 && a[0] == b[0] {
        lemma_text_before_total(a.drop_first(), b.drop_first());
        if a.drop_first() == b.drop_first() {
            assert(a =~= seq![a[0]] + a.drop_first());
            assert(b =~= seq![b[0]] + b.drop_first());
        }
    } else if a.len() > 0 && b.len() > 0 {
        assert(a[0] != b[0]);
        assert((a[0] as int) != (b[0] as int));
    } else if a.len() == 0 && b.len() == 0 {
        assert(a =~= b);
    }
}

/// Any two values can stand in some order.
pub proof fn lemma_key_le_total<T: AccountOrder>(x: T, y: T)
    ensures
        key_le(x, y) || key_le(y, x),
{
    lemma_text_before_total(x.first_key(), y.first_key());
    lemma_text_before_asymmetric(x.second_key(), y.second_key());
}

/// Standing before is transitive.
pub proof fn lemma_key_le_transitive<T: AccountOrder>(x: T, y: T, z: T)
    requires
        key_le(x, y),
        key_le(y, z),
    ensures
        key_le(x, z),
{
    let (x1, y1, z1) = (x.first_key(), y.first_key(), z.first_key());
    let (x2, y2, z2) = (x.second_key(), y.second_key(), z.second_key());
    if text_before(x1, y1) && text_before(y1, z1) {
        lemma_text_before_transitive(x1, y1, z1);
    } else if text_before(x1, y1) {
    } else if text_before(y1, z1) {
    } else {
        if text_before(z2, x2) {
            lemma_text_before_total(y2, x2);
            if text_before(y2, x2) {
            } else if y2 == x2 {
            } else {
                lemma_text_before_transitive(z2, x2, y2);
            }
        }
    }
}

/// Whether every element may stand before every later one.
pub open spec fn ordered<T: AccountOrder>(s: Seq<T>) -> bool {
    forall|i: int, j: int| 0 <= i < j < s.len() ==> key_le(#[trigger] s[i], #[trigger] s[j])
}

proof fn lemma_insert_sorted_ordered<T: AccountOrder>(s: Seq<T>, x: T)
    requires
        ordered(s),
    ensures
        ordered(insert_sorted(s, x)),
    decreases s.len(),
{
    broadcast use vstd::seq_lib::group_to_multiset_ensures;

    if s.len() == 0 {
    } else if key_le(s.last(), x) {
        let r = s.push(x);
        assert forall|i: int, j: int| 0 <= i < j < r.len() implies key_le(#[trigger] r[i], #[trigger] r[j]) by {
            if j == s.len() && i < s.len() - 1 {
                lemma_key_le_transitive(s[i], s.last(), x);
            }
        }
    } else {
        let t = s.drop_last();
        lemma_insert_sorted_ordered(t, x);
        lemma_insert_sorted_multiset(t, x);
        lemma_key_le_total(s.last(), x);
        let u = insert_sorted(t, x);
        let r = u.push(s.last());
        assert forall|i: int, j: int| 0 <= i < j < r.len() implies key_le(#[trigger] r[i], #[trigger] r[j]) by {
            if j == u.len() {
                let e = u[i];
                assert(u.to_multiset().count(e) > 0);
                assert(u.to_multiset() == t.to_multiset().insert(x));
                if e != x {
                    assert(t.to_multiset().count(e) > 0);
                    assert(t.contains(e));
                    let k = choose|k: int| 0 <= k < t.len() && t[k] == e;
                    assert(s[k] == e);
                    assert(key_le(s[k], s[s.len() - 1]));
                }
            }
        }
    }
}

/// A stable sort by key pair leaves every element before every later one in
/// order: the list is sorted by email, then workspace id.
pub proof fn lemma_sorted_by_key_ordered<T: AccountOrder>(s: Seq<T>)
    ensures
        ordered(sorted_by_key(s)),
    decreases s.len(),
{
    if s.len() > 0 {
        lemma_sorted_by_key_ordered(s.drop_last());
        lemma_insert_sorted_ordered(sorted_by_key(s.drop_last()), s.last());
    }
}

} // verus!
