//! Searching and ordering texts without regard to case.
use vstd::prelude::*;
use crate::text::{chars_of, texts};

verus! {

/// What `str::to_lowercase` makes of a text.
pub uninterp spec fn lowercase(s: Seq<char>) -> Seq<char>;

/// `str::to_lowercase`. The result depends on the text alone, and of an empty text
/// it is empty.
#[verifier::external_body]
pub(crate) fn to_lowercase(s: &str) -> (r: String)
    ensures
        r@ == lowercase(s@),
        s@.len() == 0 ==> r@.len() == 0,
{
    s.to_lowercase()
}

/// The texts in lower case.
pub open spec fn lowercased(list: Seq<Seq<char>>) -> Seq<Seq<char>> {
    list.map_values(|s: Seq<char>| lowercase(s))
}

/// `a` comes before `b` in the order of their characters.
pub open spec fn text_less(a: Seq<char>, b: Seq<char>) -> bool
    decreases a.len(),
{
    if b.len() == 0 {
        false
    } else if a.len() == 0 {
        true
    } else if a[0] != b[0] {
        a[0] < b[0]
    } else {
        text_less(a.skip(1), b.skip(1))
    }
}

/// The item `i` comes before the item `j`: its key comes first, or the keys are
/// the same and it stood first already.
pub open spec fn precedes(keys: Seq<Seq<char>>, i: int, j: int) -> bool {
    text_less(keys[i], keys[j]) || (keys[i] == keys[j] && i < j)
}

/// `order` lists every item once, by key, and items with the same key as they
/// stood.
pub open spec fn is_order(order: Seq<int>, keys: Seq<Seq<char>>) -> bool {
    &&& order.len() == keys.len()
    &&& forall|a: int| 0 <= a < order.len() ==> 0 <= #[trigger] order[a] < keys.len()
    &&& forall|a: int, b: int|
        0 <= a < b < order.len() ==> precedes(keys, #[trigger] order[a], #[trigger] order[b])
}

/// The numbers of a list, as integers.
pub open spec fn indices(list: Seq<usize>) -> Seq<int> {
    list.map_values(|i: usize| i as int)
}

proof fn lemma_less_trichotomy(a: Seq<char>, b: Seq<char>)
    ensures
        text_less(a, b) ==> !text_less(b, a) && a != b,
        !text_less(a, b) && !text_less(b, a) ==> a == b,
    decreases a.len(),
{
    if a.len() > 0 && b.len() > 0 && a[0] == b[0] {
        lemma_less_trichotomy(a.skip(1), b.skip(1));
        if a.skip(1) == b.skip(1) {
            assert(a == seq![a[0]] + a.skip(1));
            assert(b == seq![b[0]] + b.skip(1));
        }
    } else if a.len() == 0 && b.len() == 0 {
        assert(a == b);
    }
}

proof fn lemma_less_transitive(a: Seq<char>, b: Seq<char>, c: Seq<char>)
    requires
        text_less(a, b),
        text_less(b, c),
    ensures
        text_less(a, c),
    decreases a.len(),
{
    if a.len() > 0 && a[0] == b[0] && b[0] == c[0] {
        lemma_less_transitive(a.skip(1), b.skip(1), c.skip(1));
    }
}

proof fn lemma_precedes_transitive(keys: Seq<Seq<char>>, i: int, j: int, k: int)
    requires
        precedes(keys, i, j),
        precedes(keys, j, k),
    ensures
        precedes(keys, i, k),
{
    if text_less(keys[i], keys[j]) && text_less(keys[j], keys[k]) {
        lemma_less_transitive(keys[i], keys[j], keys[k]);
    }
}

/// The order of the items with these keys: by key, and items with the same key as
/// they stood.
pub open spec fn order_of(keys: Seq<Seq<char>>) -> Seq<int> {
    choose|order: Seq<int>| is_order(order, keys)
}

/// Where an item with the key `key` goes among the items of `order`: behind the last
/// one of the first `n` that does not come after it.
proof fn lemma_place(keys: Seq<Seq<char>>, order: Seq<int>, key: Seq<char>, n: int) -> (at: int)
    requires
        0 <= n <= order.len(),
        forall|a: int| n <= a < order.len() ==> text_less(key, keys[#[trigger] order[a]]),
    ensures
        0 <= at <= n,
        forall|a: int| at <= a < order.len() ==> text_less(key, keys[#[trigger] order[a]]),
        at > 0 ==> !text_less(key, keys[order[at - 1]]),
    decreases n,
{
    if n > 0 && text_less(key, keys[order[n - 1]]) {
        lemma_place(keys, order, key, n - 1)
    } else {
        n
    }
}

proof fn lemma_some_order(keys: Seq<Seq<char>>) -> (order: Seq<int>)
    ensures
        is_order(order, keys),
    decreases keys.len(),
{
    if keys.len() == 0 {
        Seq::empty()
    } else {
        let rest = keys.drop_last();
        let i = rest.len() as int;
        let prior = lemma_some_order(rest);
        let at = lemma_place(rest, prior, keys[i], i);
        assert forall|a: int| 0 <= a < at implies precedes(keys, #[trigger] prior[a], i) by {
            let p = prior[at - 1];
            assert(0 <= p < rest.len());
            assert(0 <= prior[a] < rest.len());
            lemma_less_trichotomy(keys[i], keys[p]);
            if a < at - 1 {
                assert(precedes(rest, prior[a], p));
                lemma_precedes_transitive(keys, prior[a], p, i);
            }
        }
        let order = prior.insert(at, i);
        assert forall|a: int| 0 <= a < order.len() implies 0 <= #[trigger] order[a]
            < keys.len() by {
            if a < at {
                assert(order[a] == prior[a]);
            } else if a > at {
                assert(order[a] == prior[a - 1]);
            }
        }
        assert forall|a: int, b: int| 0 <= a < b < order.len() implies precedes(
            keys,
            #[trigger] order[a],
            #[trigger] order[b],
        ) by {
            let pa = if a < at {
                a
            } else {
                a - 1
            };
            let pb = if b < at {
                b
            } else {
                b - 1
            };
            if a == at {
                assert(0 <= prior[pb] < rest.len());
                assert(text_less(keys[i], rest[prior[pb]]));
            } else if b == at {
                assert(precedes(keys, prior[pa], i));
            } else {
                assert(0 <= prior[pa] < rest.len());
                assert(0 <= prior[pb] < rest.len());
                assert(precedes(rest, prior[pa], prior[pb]));
            }
        }
        order
    }
}

/// There is an order for every list of keys, so that [`order_of`] lists every item
/// once, by key.
pub proof fn law_order_exists(keys: Seq<Seq<char>>)
    ensures
        is_order(order_of(keys), keys),
{
    let order = lemma_some_order(keys);
    assert(is_order(order, keys));
}

/// In an order no item comes behind one with a greater key.
pub proof fn law_order_is_by_key(order: Seq<int>, keys: Seq<Seq<char>>)
    requires
        is_order(order, keys),
    ensures
        forall|a: int, b: int|
            0 <= a < b < order.len() ==> !text_less(
                keys[#[trigger] order[b]],
                keys[#[trigger] order[a]],
            ),
{
    assert forall|a: int, b: int| 0 <= a < b < order.len() implies !text_less(
        keys[#[trigger] order[b]],
        keys[#[trigger] order[a]],
    ) by {
        assert(precedes(keys, order[a], order[b]));
        lemma_less_trichotomy(keys[order[a]], keys[order[b]]);
    }
}

/// The items of `list` in the order `order`.
pub open spec fn arranged<T>(list: Seq<T>, order: Seq<int>) -> Seq<T> {
    Seq::new(order.len(), |k: int| list[order[k]])
}

proof fn lemma_precedes_not_both(keys: Seq<Seq<char>>, i: int, j: int)
    ensures
        !(precedes(keys, i, j) && precedes(keys, j, i)),
        i != j ==> precedes(keys, i, j) || precedes(keys, j, i),
        !precedes(keys, i, i),
{
    lemma_less_trichotomy(keys[i], keys[j]);
    lemma_less_trichotomy(keys[i], keys[i]);
}

/// An order leaves no item out.
pub proof fn lemma_order_has_every_item(order: Seq<int>, keys: Seq<Seq<char>>)
    requires
        is_order(order, keys),
    ensures
        order.no_duplicates(),
        forall|i: int| 0 <= i < keys.len() ==> #[trigger] order.contains(i),
{
    assert forall|a: int, b: int| 0 <= a < order.len() && 0 <= b < order.len() && a != b implies order[a]
        != order[b] by {
        if a < b {
            assert(precedes(keys, order[a], order[b]));
            lemma_precedes_not_both(keys, order[a], order[b]);
        } else {
            assert(precedes(keys, order[b], order[a]));
            lemma_precedes_not_both(keys, order[b], order[a]);
        }
    }
    order.unique_seq_to_set();
    let range = vstd::set_lib::set_int_range(0, keys.len() as int);
    vstd::set_lib::lemma_int_range(0, keys.len() as int);
    assert forall|i: int| order.to_set().contains(i) implies range.contains(i) by {
        let a = choose|a: int| 0 <= a < order.len() && order[a] == i;
        assert(0 <= order[a] < keys.len());
    }
    vstd::set_lib::lemma_subset_equality(order.to_set(), range);
    assert forall|i: int| 0 <= i < keys.len() implies #[trigger] order.contains(i) by {
        assert(range.contains(i));
        assert(order.to_set().contains(i));
    }
}

/// There is only one order: the keys, and where the items stood, say where each
/// item goes.
pub proof fn law_order_is_unique(a: Seq<int>, b: Seq<int>, keys: Seq<Seq<char>>)
    requires
        is_order(a, keys),
        is_order(b, keys),
    ensures
        a == b,
{
    lemma_same_start(a, b, keys, keys.len());
    assert(a == b) by {
        assert(a.take(keys.len() as int) == a);
        assert(b.take(keys.len() as int) == b);
    }
}

proof fn lemma_same_start(a: Seq<int>, b: Seq<int>, keys: Seq<Seq<char>>, k: nat)
    requires
        is_order(a, keys),
        is_order(b, keys),
        k <= keys.len(),
    ensures
        a.take(k as int) == b.take(k as int),
    decreases k,
{
    if k > 0 {
        let i = k - 1;
        lemma_same_start(a, b, keys, i as nat);
        assert forall|p: int| 0 <= p < i implies a[p] == b[p] by {
            assert(a.take(i)[p] == b.take(i)[p]);
        }
        if a[i] != b[i] {
            lemma_precedes_not_both(keys, a[i], b[i]);
            lemma_not_first(a, b, keys, i);
            lemma_not_first(b, a, keys, i);
        }
        assert(a.take(k as int) == a.take(i).push(a[i]));
        assert(b.take(k as int) == b.take(i).push(b[i]));
    }
}

/// Two orders that agree before position `i` cannot have the first put an earlier
/// item there.
proof fn lemma_not_first(a: Seq<int>, b: Seq<int>, keys: Seq<Seq<char>>, i: int)
    requires
        is_order(a, keys),
        is_order(b, keys),
        0 <= i < keys.len(),
        forall|p: int| 0 <= p < i ==> a[p] == b[p],
    ensures
        !precedes(keys, a[i], b[i]),
{
    lemma_order_has_every_item(a, keys);
    lemma_order_has_every_item(b, keys);
    assert(0 <= a[i] < keys.len());
    assert(b.contains(a[i]));
    let p = choose|p: int| 0 <= p < b.len() && b[p] == a[i];
    if p < i {
        assert(a[p] == b[p]);
    } else if p == i {
        lemma_precedes_not_both(keys, a[i], b[i]);
    } else {
        assert(precedes(keys, b[i], b[p]));
        lemma_precedes_not_both(keys, a[i], b[i]);
    }
}

/// Whether `a` comes before `b`.
fn less(a: &[char], b: &[char]) -> (r: bool)
    ensures
        r == text_less(a@, b@),
{
    let n: usize = a.len();
    let m: usize = b.len();
    let mut i: usize = 0;
    assert(a@.skip(0) == a@);
    assert(b@.skip(0) == b@);
    while i < n && i < m && a[i] == b[i]
        invariant
            i <= n,
            i <= m,
            n == a@.len(),
            m == b@.len(),
            text_less(a@, b@) == text_less(a@.skip(i as int), b@.skip(i as int)),
        decreases n - i,
    {
        assert(a@.skip(i as int).skip(1) == a@.skip(i + 1));
        assert(b@.skip(i as int).skip(1) == b@.skip(i + 1));
        i = i + 1;
    }
    if i >= m {
        false
    } else if i >= n {
        true
    } else {
        a[i] < b[i]
    }
}

/// The order of the items with these keys: by key, and items with the same key as
/// they stood.
pub fn stable_order(keys: &[String]) -> (r: Vec<usize>)
    ensures
        is_order(indices(r@), texts(keys@)),
        indices(r@) == order_of(texts(keys@)),
{
    let ghost all = texts(keys@);
    let n: usize = keys.len();
    let mut order: Vec<usize> = Vec::new();
    for i in 0..n
        invariant
            n == keys@.len(),
            all == texts(keys@),
            order@.len() == i,
            forall|a: int| 0 <= a < i ==> #[trigger] order@[a] < i,
            forall|a: int, b: int|
                0 <= a < b < i ==> precedes(
                    all,
                    #[trigger] order@[a] as int,
                    #[trigger] order@[b] as int,
                ),
    {
        let key = chars_of(keys[i].as_str());
        let mut at: usize = i;
        while at > 0 && less(
            key.as_slice(),
            chars_of(keys[order[at - 1]].as_str()).as_slice(),
        )
            invariant
                at <= i,
                i < n,
                n == keys@.len(),
                all == texts(keys@),
                key@ == all[i as int],
                order@.len() == i,
                forall|a: int| 0 <= a < i ==> #[trigger] order@[a] < i,
                forall|a: int| at <= a < i ==> text_less(all[i as int], all[#[trigger] order@[a] as int]),
            decreases at,
        {
            at = at - 1;
        }
        let ghost prior = order@;
        proof {
            if at > 0 {
                let p = prior[at - 1] as int;
                lemma_less_trichotomy(all[i as int], all[p]);
                assert(precedes(all, p, i as int));
                assert forall|a: int| 0 <= a < at implies precedes(
                    all,
                    #[trigger] prior[a] as int,
                    i as int,
                ) by {
                    if a < at - 1 {
                        assert(precedes(all, prior[a] as int, prior[at - 1] as int));
                        lemma_precedes_transitive(all, prior[a] as int, p, i as int);
                    }
                }
            }
        }
        order.insert(at, i);
        proof {
            assert forall|a: int, b: int| 0 <= a < b < i + 1 implies precedes(
                all,
                #[trigger] order@[a] as int,
                #[trigger] order@[b] as int,
            ) by {
                let pa = if a < at {
                    a
                } else {
                    a - 1
                };
                let pb = if b < at {
                    b
                } else {
                    b - 1
                };
                if a != at {
                    assert(order@[a] == prior[pa]);
                }
                if b != at {
                    assert(order@[b] == prior[pb]);
                }
            }
            assert forall|a: int| 0 <= a < i + 1 implies #[trigger] order@[a] < i + 1 by {
                if a < at {
                    assert(order@[a] == prior[a]);
                } else if a > at {
                    assert(order@[a] == prior[a - 1]);
                }
            }
        }
    }
    proof {
        let order_ints = indices(order@);
        assert forall|a: int| 0 <= a < order_ints.len() implies 0 <= #[trigger] order_ints[a]
            < all.len() by {
            assert(order@[a] < n);
        }
        assert forall|a: int, b: int| 0 <= a < b < order_ints.len() implies precedes(
            all,
            #[trigger] order_ints[a],
            #[trigger] order_ints[b],
        ) by {
            assert(precedes(all, order@[a] as int, order@[b] as int));
        }
        assert(is_order(order_ints, all));
        law_order_is_unique(order_ints, order_of(all), all);
    }
    order
}

/// Texts are ordered like words in a dictionary: at the first character in which they
/// differ the lesser one decides, and a text comes before what it is the start of.
/// No text comes before itself.
pub proof fn law_text_order(start: Seq<char>, x: char, a: Seq<char>, y: char, b: Seq<char>)
    ensures
        x != y ==> (text_less(start + seq![x] + a, start + seq![y] + b) <==> x < y),
        text_less(start, start + seq![x] + a),
        !text_less(start + seq![x] + a, start),
        !text_less(start, start),
    decreases start.len(),
{
    let s = start + seq![x] + a;
    let t = start + seq![y] + b;
    if start.len() > 0 {
        law_text_order(start.skip(1), x, a, y, b);
        assert(s.skip(1) =~= start.skip(1) + seq![x] + a);
        assert(t.skip(1) =~= start.skip(1) + seq![y] + b);
        assert(s[0] == start[0] && t[0] == start[0]);
    } else {
        assert(s[0] == x && t[0] == y);
    }
}

/// Items with the same key stay as they stood.
pub proof fn law_equal_keys_stay_as_they_stood(
    order: Seq<int>,
    keys: Seq<Seq<char>>,
    a: int,
    b: int,
)
    requires
        is_order(order, keys),
        0 <= a < b < order.len(),
        keys[order[a]] == keys[order[b]],
    ensures
        order[a] < order[b],
{
    assert(precedes(keys, order[a], order[b]));
    law_text_order(keys[order[a]], 'x', Seq::empty(), 'x', Seq::empty());
}

} // verus!
