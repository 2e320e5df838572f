//! Stable sorting of an attribute list by key.
//!
//! The sorted list is defined by insertion: each attribute, taken in the
//! order given, goes behind every attribute whose key is not greater than its
//! own. [`lemma_stable_sort_is_sorted`] and
//! [`lemma_stable_sort_keeps_each_key`] state what that gives, and
//! [`lemma_stable_sort_is_unique`] that nothing else gives it.

use crate::model::Attribute;
use crate::order::key_before;
use crate::order::key_precedes;
use crate::order::lemma_key_before_irreflexive;
use crate::order::lemma_key_before_total;
use crate::order::lemma_key_before_transitive;
use vstd::prelude::*;

verus! {

/// The mathematical value of a stored attribute.
pub open spec fn attribute_model(a: (String, String)) -> Attribute {
    (a.0@, a.1@)
}

/// The mathematical value of a stored attribute list.
pub open spec fn attribute_models(s: Seq<(String, String)>) -> Seq<Attribute> {
    s.map_values(|a: (String, String)| attribute_model(a))
}

/// The mathematical value of a list of borrowed attributes.
pub open spec fn borrowed_attribute_models(s: Seq<&(String, String)>) -> Seq<Attribute> {
    s.map_values(|a: &(String, String)| attribute_model(*a))
}

/// No attribute is followed by one with a smaller key.
pub open spec fn sorted_by_key(s: Seq<Attribute>) -> bool {
    forall|i: int, j: int|
        #![trigger s[i], s[j]]
        0 <= i < j < s.len() ==> !key_before(s[j].0, s[i].0)
}

/// The attributes of `s` whose key is `key`, in the order they have in `s`.
pub open spec fn with_key(s: Seq<Attribute>, key: Seq<char>) -> Seq<Attribute>
    decreases s.len(),
{
    if s.len() == 0 {
        Seq::empty()
    } else if s.last().0 == key {
        with_key(s.drop_last(), key).push(s.last())
    } else {
        with_key(s.drop_last(), key)
    }
}

/// The index of the first attribute of `s` whose key is greater than `key`,
/// or the length of `s` if there is none.
pub open spec fn insertion_point(s: Seq<Attribute>, key: Seq<char>) -> int
    decreases s.len(),
{
    if s.len() == 0 || key_before(key, s[0].0) {
        0
    } else {
        1 + insertion_point(s.drop_first(), key)
    }
}

/// The attributes of `s` sorted by key, attributes with equal keys keeping
/// their order.
pub open spec fn stable_sort(s: Seq<Attribute>) -> Seq<Attribute>
    decreases s.len(),
{
    if s.len() == 0 {
        Seq::empty()
    } else {
        let sorted = stable_sort(s.drop_last());
        sorted.insert(insertion_point(sorted, s.last().0), s.last())
    }
}

/// The insertion point lies within the list; no attribute before it has a key
/// greater than `key`, and the attribute at it, if any, has.
pub proof fn lemma_insertion_point(s: Seq<Attribute>, key: Seq<char>)
    ensures
        0 <= insertion_point(s, key) <= s.len(),
        forall|i: int| 0 <= i < insertion_point(s, key) ==> !key_before(key, #[trigger] s[i].0),
        insertion_point(s, key) < s.len() ==> key_before(key, s[insertion_point(s, key)].0),
    decreases s.len(),
{
    if s.len() == 0 || key_before(key, s[0].0) {
    } else {
        let rest = s.drop_first();
        lemma_insertion_point(rest, key);
        let p = insertion_point(s, key);
        assert forall|i: int| 0 <= i < p implies !key_before(key, #[trigger] s[i].0) by {
            if i > 0 {
                assert(s[i] == rest[i - 1]);
            }
        }
        if p < s.len() {
        }
    }
}

/// In a sorted list every attribute from the insertion point on has a key
/// greater than `key`.
proof fn lemma_greater_from_insertion_point(s: Seq<Attribute>, key: Seq<char>, j: int)
    requires
        sorted_by_key(s),
        insertion_point(s, key) <= j < s.len(),
    ensures
        key_before(key, s[j].0),
{
    lemma_insertion_point(s, key);
    let p = insertion_point(s, key);
    if p < j && s[p].0 != s[j].0 {
        lemma_key_before_total(s[p].0, s[j].0);
        lemma_key_before_transitive(key, s[p].0, s[j].0);
    }
}

/// Inserting an attribute at its insertion point keeps a sorted list sorted.
proof fn lemma_insert_keeps_sorted(s: Seq<Attribute>, a: Attribute)
    requires
        sorted_by_key(s),
    ensures
        sorted_by_key(s.insert(insertion_point(s, a.0), a)),
{
    let p = insertion_point(s, a.0);
    let t = s.insert(p, a);
    lemma_insertion_point(s, a.0);
    assert forall|i: int, j: int| 0 <= i < j < t.len() implies !key_before(
        #[trigger] t[j].0,
        #[trigger] t[i].0,
    ) by {
        if i == p {
            lemma_greater_from_insertion_point(s, a.0, j - 1);
            if key_before(s[j - 1].0, a.0) {
                lemma_key_before_transitive(a.0, s[j - 1].0, a.0);
                lemma_key_before_irreflexive(a.0);
            }
        }
    }
}

/// Selecting by key distributes over concatenation.
pub proof fn lemma_with_key_concat(x: Seq<Attribute>, y: Seq<Attribute>, key: Seq<char>)
    ensures
        with_key(x + y, key) == with_key(x, key) + with_key(y, key),
    decreases y.len(),
{
    if y.len() > 0 {
        assert((x + y).drop_last() =~= x + y.drop_last());
        lemma_with_key_concat(x, y.drop_last(), key);
    }
}

/// Selecting by a key that no attribute has gives the empty list.
proof fn lemma_with_key_absent(s: Seq<Attribute>, key: Seq<char>)
    requires
        forall|i: int| 0 <= i < s.len() ==> (#[trigger] s[i]).0 != key,
    ensures
        with_key(s, key) == Seq::<Attribute>::empty(),
    decreases s.len(),
{
    if s.len() > 0 {
        lemma_with_key_absent(s.drop_last(), key);
    }
}

/// Inserting an attribute at its insertion point into a sorted list puts it
/// behind every attribute of its own key and leaves the others in place.
proof fn lemma_insert_with_key(s: Seq<Attribute>, a: Attribute, key: Seq<char>)
    requires
        sorted_by_key(s),
    ensures
        with_key(s.insert(insertion_point(s, a.0), a), key) == with_key(s.push(a), key),
{
    let p = insertion_point(s, a.0);
    lemma_insertion_point(s, a.0);
    let front = s.subrange(0, p);
    let back = s.subrange(p, s.len() as int);
    assert(s =~= front + back);
    lemma_with_key_concat(front.push(a), back, key);
    lemma_with_key_concat(front, back, key);
    assert(front.push(a).drop_last() =~= front);
    assert(s.push(a).drop_last() =~= s);
    if a.0 == key {
        assert forall|i: int| 0 <= i < back.len() implies (#[trigger] back[i]).0 != key by {
            lemma_greater_from_insertion_point(s, a.0, p + i);
            lemma_key_before_irreflexive(key);
        }
        lemma_with_key_absent(back, key);
    }
}

/// Sorting keeps the number of attributes.
pub proof fn lemma_stable_sort_len(s: Seq<Attribute>)
    ensures
        stable_sort(s).len() == s.len(),
    decreases s.len(),
{
    if s.len() > 0 {
        lemma_stable_sort_len(s.drop_last());
        lemma_insertion_point(stable_sort(s.drop_last()), s.last().0);
    }
}

/// The sorted list is sorted by key.
pub proof fn lemma_stable_sort_is_sorted(s: Seq<Attribute>)
    ensures
        sorted_by_key(stable_sort(s)),
    decreases s.len(),
{
    if s.len() > 0 {
        lemma_stable_sort_is_sorted(s.drop_last());
        lemma_insert_keeps_sorted(stable_sort(s.drop_last()), s.last());
    }
}

/// Sorting is a stable rearrangement: for every key, the sorted list holds
/// the attributes of that key that the given list holds, as often and in the
/// same order.
pub proof fn lemma_stable_sort_keeps_each_key(s: Seq<Attribute>, key: Seq<char>)
    ensures
        with_key(stable_sort(s), key) == with_key(s, key),
    decreases s.len(),
{
    if s.len() > 0 {
        let sorted = stable_sort(s.drop_last());
        lemma_stable_sort_keeps_each_key(s.drop_last(), key);
        lemma_stable_sort_is_sorted(s.drop_last());
        lemma_insert_with_key(sorted, s.last(), key);
        assert(sorted.push(s.last()).drop_last() =~= sorted);
    }
}

/// A list that is sorted by key and holds, for every key, the attributes of
/// that key as `s` holds them is the sorted list of `s`: being sorted and
/// stable determines the result.
pub proof fn lemma_stable_sort_is_unique(s: Seq<Attribute>, t: Seq<Attribute>)
    requires
        sorted_by_key(t),
        forall|key: Seq<char>| #[trigger] with_key(t, key) == with_key(s, key),
    ensures
        t == stable_sort(s),
{
    let u = stable_sort(s);
    lemma_stable_sort_is_sorted(s);
    assert forall|key: Seq<char>| #[trigger] with_key(t, key) == with_key(u, key) by {
        lemma_stable_sort_keeps_each_key(s, key);
    }
    lemma_sorted_lists_agree(t, u);
}

/// Sorting a list that is sorted by key changes nothing.
pub proof fn lemma_stable_sort_of_sorted(s: Seq<Attribute>)
    requires
        sorted_by_key(s),
    ensures
        stable_sort(s) == s,
{
    lemma_stable_sort_is_unique(s, s);
}

/// Two sorted lists that hold, for every key, the same attributes of that key
/// in the same order are equal.
proof fn lemma_sorted_lists_agree(a: Seq<Attribute>, b: Seq<Attribute>)
    requires
        sorted_by_key(a),
        sorted_by_key(b),
        forall|key: Seq<char>| #[trigger] with_key(a, key) == with_key(b, key),
    ensures
        a == b,
    decreases a.len(),
{
    if a.len() == 0 {
        if b.len() > 0 {
            assert(with_key(a, b.last().0) == with_key(b, b.last().0));
        }
    } else {
        let x = a.last();
        assert(with_key(a, x.0) == with_key(b, x.0));
        let y = b.last();
        lemma_last_keys_agree(a, b);
        lemma_last_keys_agree(b, a);
        if x.0 != y.0 {
            lemma_key_before_total(x.0, y.0);
        }
        let a0 = a.drop_last();
        let b0 = b.drop_last();
        assert(with_key(b0, x.0).push(y).last() == y);
        assert forall|key: Seq<char>| #[trigger] with_key(a0, key) == with_key(b0, key) by {
            assert(with_key(a, key) == with_key(b, key));
            if key == x.0 {
                assert(with_key(b0, key).push(y).drop_last() =~= with_key(b0, key));
            }
        }
        lemma_sorted_prefix(a);
        lemma_sorted_prefix(b);
        lemma_sorted_lists_agree(a0, b0);
        assert(b =~= b0.push(y));
    }
}

/// A sorted list without its last attribute is sorted.
proof fn lemma_sorted_prefix(s: Seq<Attribute>)
    requires
        s.len() > 0,
        sorted_by_key(s),
    ensures
        sorted_by_key(s.drop_last()),
{
    let t = s.drop_last();
    assert forall|i: int, j: int| 0 <= i < j < t.len() implies !key_before(
        #[trigger] t[j].0,
        #[trigger] t[i].0,
    ) by {
        assert(t[i] == s[i] && t[j] == s[j]);
    }
}

/// If the sorted list `b` holds an attribute with the key of the last
/// attribute of `a`, then the key of its own last attribute does not come
/// before that key.
proof fn lemma_last_keys_agree(a: Seq<Attribute>, b: Seq<Attribute>)
    requires
        a.len() > 0,
        b.len() > 0,
        sorted_by_key(b),
        with_key(a, a.last().0) == with_key(b, a.last().0),
    ensures
        !key_before(b.last().0, a.last().0),
{
    let key = a.last().0;
    assert(with_key(a, key).len() > 0);
    if forall|j: int| 0 <= j < b.len() ==> (#[trigger] b[j]).0 != key {
        lemma_with_key_absent(b, key);
    }
    let j = choose|j: int| 0 <= j < b.len() && (#[trigger] b[j]).0 == key;
    if j == b.len() - 1 {
        lemma_key_before_irreflexive(key);
    }
}

/// Returns the place at which an attribute of the given key enters a list:
/// the index of the first attribute whose key is greater.
fn insertion_index(list: &Vec<&(String, String)>, key: &str) -> (at: usize)
    ensures
        at <= list.len(),
        at == insertion_point(borrowed_attribute_models(list@), key@),
{
    let ghost models = borrowed_attribute_models(list@);
    let mut at: usize = 0;
    assert(models.skip(0) =~= models);
    while at < list.len() && !key_precedes(key, list[at].0.as_str())
        invariant
            models == borrowed_attribute_models(list@),
            at <= list.len(),
            insertion_point(models, key@) == at + insertion_point(models.skip(at as int), key@),
        decreases list.len() - at,
    {
        assert(models.skip(at as int).drop_first() =~= models.skip(at + 1));
        at += 1;
    }
    at
}

/// Borrows the given attributes in the order in which they are to be written:
/// sorted by key, equal keys keeping their order, if `sort` is set, and as
/// they are stored otherwise. The stored list is left as it is.
pub fn ordered_attributes<'a>(attributes: &'a Vec<(String, String)>, sort: bool) -> (ordered: Vec<
    &'a (String, String),
>)
    ensures
        borrowed_attribute_models(ordered@) == if sort {
            stable_sort(attribute_models(attributes@))
        } else {
            attribute_models(attributes@)
        },
{
    let ghost all = attribute_models(attributes@);
    let mut ordered: Vec<&(String, String)> = Vec::new();
    let mut i: usize = 0;
    while i < attributes.len()
        invariant
            all == attribute_models(attributes@),
            i <= attributes.len(),
            borrowed_attribute_models(ordered@) == if sort {
                stable_sort(all.take(i as int))
            } else {
                all.take(i as int)
            },
        decreases attributes.len() - i,
    {
        let attribute = &attributes[i];
        let at = if sort {
            insertion_index(&ordered, attribute.0.as_str())
        } else {
            ordered.len()
        };
        ordered.insert(at, attribute);
        assert(all.take(i + 1).drop_last() =~= all.take(i as int));
        i += 1;
    }
    assert(all.take(i as int) =~= all);
    ordered
}

} // verus!
