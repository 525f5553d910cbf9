//! The order of directory listings: directories first, then by name, and a
//! stable sort by that order.

use vstd::prelude::*;

verus! {

/// What a listing entry is ordered by.
pub struct SortKey {
    pub directory: bool,
    pub name: Vec<char>,
}

/// The model of a [`SortKey`].
pub struct KeyView {
    pub directory: bool,
    pub name: Seq<char>,
}

impl View for SortKey {
    type V = KeyView;

    open spec fn view(&self) -> KeyView {
        KeyView { directory: self.directory, name: self.name@ }
    }
}

/// An item with the key it is ordered by.
pub struct Keyed<T> {
    pub key: SortKey,
    pub item: T,
}

/// The model of a [`Keyed`]: the model of the item with the model of its
/// key.
pub struct Ranked<V> {
    pub key: KeyView,
    pub item: V,
}

impl<T: View> View for Keyed<T> {
    type V = Ranked<T::V>;

    open spec fn view(&self) -> Ranked<T::V> {
        Ranked { key: self.key@, item: self.item@ }
    }
}

/// The models of a list of keyed items.
pub open spec fn ranked<T: View>(list: Seq<Keyed<T>>) -> Seq<Ranked<T::V>> {
    list.map_values(|k: Keyed<T>| k@)
}

/// The items of a list of keyed models, without their keys.
pub open spec fn items_of<V>(list: Seq<Ranked<V>>) -> Seq<V> {
    list.map_values(|r: Ranked<V>| r.item)
}

/// `a` stands before `b` in the order of their characters' code points,
/// where a text stands before every text that it is a proper prefix of.
pub open spec fn text_before(a: Seq<char>, b: Seq<char>) -> bool
    decreases a.len(),
{
    if b.len() == 0 {
        false
    } else if a.len() == 0 {
        true
    } else if a[0] != b[0] {
        a[0] < b[0]
    } else {
        text_before(a.drop_first(), b.drop_first())
    }
}

/// `a` stands before `b`: a directory before anything that is none, and
/// among entries of one kind the one whose name stands before the other's.
pub open spec fn key_before(a: KeyView, b: KeyView) -> bool {
    (a.directory && !b.directory) || (a.directory == b.directory && text_before(a.name, b.name))
}

/// `a` stands before `b` by their keys.
pub open spec fn before<V>(a: Ranked<V>, b: Ranked<V>) -> bool {
    key_before(a.key, b.key)
}

/// True where no item stands before one that precedes it in the list.
pub open spec fn ordered<V>(list: Seq<Ranked<V>>) -> bool {
    forall|i: int, j: int| 0 <= i < j < list.len() ==> !before(list[j], list[i])
}

/// The first position at or after `i` whose item `x` stands before, or the
/// length of the list.
pub open spec fn insert_point<V>(list: Seq<Ranked<V>>, x: Ranked<V>, i: int) -> int
    decreases list.len() - i,
{
    if 0 <= i < list.len() && !before(x, list[i]) {
        insert_point(list, x, i + 1)
    } else {
        i
    }
}

/// `list` with `x` put in front of the first item that it stands before.
pub open spec fn inserted<V>(list: Seq<Ranked<V>>, x: Ranked<V>) -> Seq<Ranked<V>> {
    list.insert(insert_point(list, x, 0), x)
}

/// The items in order. Items that do not stand before one another keep the
/// order in which they came.
pub open spec fn sorted_of<V>(items: Seq<Ranked<V>>) -> Seq<Ranked<V>>
    decreases items.len(),
{
    if items.len() == 0 {
        seq![]
    } else {
        inserted(sorted_of(items.drop_last()), items.last())
    }
}

/// No text stands before itself, and of two texts at most one stands before
/// the other.
pub proof fn lemma_text_before_asymmetric(a: Seq<char>, b: Seq<char>)
    ensures
        !(text_before(a, b) && text_before(b, a)),
    decreases a.len(),
{
    if a.len() > 0 && b.len() > 0 && a[0] == b[0] {
        lemma_text_before_asymmetric(a.drop_first(), b.drop_first());
    }
}

/// Where `a` stands before `b` and `b` before `c`, `a` stands before `c`.
pub proof fn lemma_text_before_transitive(a: Seq<char>, b: Seq<char>, c: Seq<char>)
    requires
        text_before(a, b),
        text_before(b, c),
    ensures
        text_before(a, c),
    decreases a.len(),
{
    if a.len() > 0 && b.len() > 0 && c.len() > 0 && a[0] == b[0] && b[0] == c[0] {
        lemma_text_before_transitive(a.drop_first(), b.drop_first(), c.drop_first());
    }
}

/// Of two different texts one stands before the other.
pub proof fn law_texts_are_comparable(a: Seq<char>, b: Seq<char>)
    ensures
        a == b || text_before(a, b) || text_before(b, a),
    decreases a.len(),
{
    if a.len() > 0 && b.len() > 0 {
        if a[0] == b[0] {
            law_texts_are_comparable(a.drop_first(), b.drop_first());
            if a.drop_first() == b.drop_first() {
                assert(a =~= seq![a[0]] + a.drop_first());
                assert(b =~= seq![b[0]] + b.drop_first());
            }
        }
    } else if a.len() == 0 && b.len() == 0 {
        assert(a =~= b);
    }
}

proof fn lemma_key_before_asymmetric(a: KeyView, b: KeyView)
    ensures
        !(key_before(a, b) && key_before(b, a)),
{
    lemma_text_before_asymmetric(a.name, b.name);
}

proof fn lemma_key_before_transitive(a: KeyView, b: KeyView, c: KeyView)
    requires
        key_before(a, b),
        key_before(b, c),
    ensures
        key_before(a, c),
{
    if a.directory == b.directory && b.directory == c.directory {
        lemma_text_before_transitive(a.name, b.name, c.name);
    }
}

proof fn lemma_insert_point<V>(list: Seq<Ranked<V>>, x: Ranked<V>, i: int)
    requires
        0 <= i <= list.len(),
    ensures
        i <= insert_point(list, x, i) <= list.len(),
        forall|k: int| i <= k < insert_point(list, x, i) ==> !before(x, #[trigger] list[k]),
        insert_point(list, x, i) < list.len() ==> before(x, list[insert_point(list, x, i)]),
    decreases list.len() - i,
{
    if i < list.len() && !before(x, list[i]) {
        lemma_insert_point(list, x, i + 1);
    }
}

proof fn lemma_inserted_ordered<V>(list: Seq<Ranked<V>>, x: Ranked<V>)
    requires
        ordered(list),
    ensures
        ordered(inserted(list, x)),
{
    let at = insert_point(list, x, 0);
    let grown = inserted(list, x);
    lemma_insert_point(list, x, 0);
    assert forall|i: int, j: int| 0 <= i < j < grown.len() implies !before(grown[j], grown[i]) by {
        if j == at {
            assert(grown[j] == x);
            assert(grown[i] == list[i]);
            assert(!before(x, list[i]));
        } else if i == at {
            assert(grown[i] == x);
            assert(grown[j] == list[j - 1]);
            assert(before(x, list[at]));
            if before(list[j - 1], x) {
                lemma_key_before_asymmetric(x.key, list[at].key);
                lemma_key_before_transitive(list[j - 1].key, x.key, list[at].key);
                if j - 1 > at {
                    assert(!before(list[j - 1], list[at]));
                }
            }
        } else {
            let i0 = if i < at {
                i
            } else {
                i - 1
            };
            let j0 = if j < at {
                j
            } else {
                j - 1
            };
            assert(grown[i] == list[i0] && grown[j] == list[j0]);
            assert(!before(list[j0], list[i0]));
        }
    }
}

/// What the sort returns is in order.
pub proof fn law_sorted_is_ordered<V>(items: Seq<Ranked<V>>)
    ensures
        ordered(sorted_of(items)),
    decreases items.len(),
{
    if items.len() > 0 {
        law_sorted_is_ordered(items.drop_last());
        lemma_inserted_ordered(sorted_of(items.drop_last()), items.last());
    }
}

/// What the sort returns holds the items it was given, each as often as it
/// was given.
pub proof fn law_sorted_is_permutation<V>(items: Seq<Ranked<V>>)
    ensures
        sorted_of(items).to_multiset() == items.to_multiset(),
    decreases items.len(),
{
    broadcast use vstd::seq_lib::group_to_multiset_ensures;

    if items.len() > 0 {
        let front = items.drop_last();
        let x = items.last();
        law_sorted_is_permutation(front);
        let list = sorted_of(front);
        lemma_insert_point(list, x, 0);
        let at = insert_point(list, x, 0);
        vstd::seq_lib::lemma_multiset_commutative(list.take(at), list.skip(at));
        assert(list.take(at) + list.skip(at) =~= list);
        assert(inserted(list, x) =~= list.take(at).push(x) + list.skip(at));
        vstd::seq_lib::lemma_multiset_commutative(list.take(at).push(x), list.skip(at));
        assert(items =~= front.push(x));
        assert(inserted(list, x).to_multiset() =~= list.to_multiset().insert(x));
    } else {
        assert(sorted_of(items) =~= items);
    }
}

/// The items of `list` that have this key, in the order of the list.
pub open spec fn with_key<V>(list: Seq<Ranked<V>>, key: KeyView) -> Seq<Ranked<V>>
    decreases list.len(),
{
    if list.len() == 0 {
        seq![]
    } else {
        let front = with_key(list.drop_last(), key);
        if list.last().key == key {
            front.push(list.last())
        } else {
            front
        }
    }
}

proof fn lemma_with_key_concat<V>(a: Seq<Ranked<V>>, b: Seq<Ranked<V>>, key: KeyView)
    ensures
        with_key(a + b, key) == with_key(a, key) + with_key(b, key),
    decreases b.len(),
{
    if b.len() == 0 {
        assert(a + b =~= a);
        assert(with_key(a, key) + with_key(b, key) =~= with_key(a, key));
    } else {
        lemma_with_key_concat(a, b.drop_last(), key);
        assert((a + b).drop_last() =~= a + b.drop_last());
        assert((a + b).last() == b.last());
        if b.last().key == key {
            assert(with_key(a, key) + with_key(b.drop_last(), key).push(b.last()) =~= (with_key(
                a,
                key,
            ) + with_key(b.drop_last(), key)).push(b.last()));
        }
    }
}

proof fn lemma_with_key_absent<V>(list: Seq<Ranked<V>>, key: KeyView)
    requires
        forall|i: int| 0 <= i < list.len() ==> (#[trigger] list[i]).key != key,
    ensures
        with_key(list, key) == Seq::<Ranked<V>>::empty(),
    decreases list.len(),
{
    if list.len() > 0 {
        assert forall|i: int| 0 <= i < list.drop_last().len() implies (#[trigger] list.drop_last()[i]).key
            != key by {
            assert(list.drop_last()[i] == list[i]);
        }
        lemma_with_key_absent(list.drop_last(), key);
        assert(list.last() == list[list.len() - 1]);
    }
}

/// The sort is stable: the items of any one key come out in the order in
/// which they went in.
pub proof fn law_sort_is_stable<V>(items: Seq<Ranked<V>>, key: KeyView)
    ensures
        with_key(sorted_of(items), key) == with_key(items, key),
    decreases items.len(),
{
    if items.len() > 0 {
        let front = items.drop_last();
        let x = items.last();
        let list = sorted_of(front);
        law_sort_is_stable(front, key);
        law_sorted_is_ordered(front);
        lemma_insert_point(list, x, 0);
        let at = insert_point(list, x, 0);
        let head = list.take(at);
        let tail = list.skip(at);
        assert(list =~= head + tail);
        assert(inserted(list, x) =~= (head + seq![x]) + tail);
        lemma_with_key_concat(head, tail, key);
        lemma_with_key_concat(head + seq![x], tail, key);
        lemma_with_key_concat(head, seq![x], key);
        assert(seq![x].drop_last() =~= Seq::<Ranked<V>>::empty());
        assert(with_key(seq![x].drop_last(), key) =~= Seq::<Ranked<V>>::empty());
        if x.key == key {
            assert forall|i: int| 0 <= i < tail.len() implies (#[trigger] tail[i]).key != key by {
                assert(tail[i] == list[at + i]);
                assert(before(x, list[at]));
                if tail[i].key == key {
                    lemma_key_before_asymmetric(x.key, x.key);
                    if i > 0 {
                        assert(!before(list[at + i], list[at]));
                    }
                }
            }
            lemma_with_key_absent(tail, key);
            assert(with_key(seq![x], key) =~= seq![x]);
            assert(with_key(inserted(list, x), key) =~= with_key(head, key).push(x));
            assert(with_key(list, key) =~= with_key(head, key));
        } else {
            assert(with_key(seq![x], key) =~= Seq::<Ranked<V>>::empty());
            assert(with_key(inserted(list, x), key) =~= with_key(head, key) + with_key(tail, key));
        }
    }
}

/// `a` stands before `b`.
pub fn text_precedes(a: &Vec<char>, b: &Vec<char>) -> (r: bool)
    ensures
        r == text_before(a@, b@),
{
    let mut i: usize = 0;
    assert(a@.skip(0) =~= a@ && b@.skip(0) =~= b@);
    while i < a.len() && i < b.len()
        invariant
            i <= a.len(),
            i <= b.len(),
            text_before(a@.skip(i as int), b@.skip(i as int)) == text_before(a@, b@),
        decreases a.len() - i,
    {
        proof {
            assert(a@.skip(i as int)[0] == a@[i as int]);
            assert(b@.skip(i as int)[0] == b@[i as int]);
            assert(a@.skip(i as int).drop_first() =~= a@.skip(i + 1));
            assert(b@.skip(i as int).drop_first() =~= b@.skip(i + 1));
        }
        if a[i] != b[i] {
            return a[i] < b[i];
        }
        i += 1;
    }
    i < b.len()
}

/// `a` stands before `b`.
pub fn key_precedes(a: &SortKey, b: &SortKey) -> (r: bool)
    ensures
        r == key_before(a@, b@),
{
    if a.directory != b.directory {
        a.directory
    } else {
        text_precedes(&a.name, &b.name)
    }
}

/// Sorts the items by their keys. Items that do not stand before one another
/// keep the order in which they came.
pub fn sort_keyed<T: View>(items: Vec<Keyed<T>>) -> (out: Vec<Keyed<T>>)
    ensures
        ranked(out@) == sorted_of(ranked(items@)),
{
    let mut out: Vec<Keyed<T>> = Vec::new();
    let ghost all = ranked(items@);
    assert(all.take(0) =~= Seq::<Ranked<T::V>>::empty());
    assert(ranked(out@) =~= Seq::<Ranked<T::V>>::empty());
    for item in it: items
        invariant
            all == ranked(it.seq()),
            ranked(out@) == sorted_of(all.take(it.index() as int)),
    {
        proof {
            assert(all.take(it.index() + 1).drop_last() =~= all.take(it.index() as int));
            assert(all.take(it.index() + 1).last() == item@);
        }
        let mut at: usize = 0;
        while at < out.len() && !key_precedes(&item.key, &out[at].key)
            invariant
                at <= out.len(),
                insert_point(ranked(out@), item@, at as int) == insert_point(
                    ranked(out@),
                    item@,
                    0,
                ),
            decreases out.len() - at,
        {
            at += 1;
        }
        assert(ranked(out@.insert(at as int, item)) =~= ranked(out@).insert(at as int, item@));
        out.insert(at, item);
    }
    assert(all.take(all.len() as int) =~= all);
    out
}

} // verus!
