//! The order of display names, and what it means to sort by name without
//! disturbing rows whose names are equal.

use vstd::prelude::*;

verus! {

/// `a` comes strictly before `b` in the order of `String`: character by
/// character from the front, by code point, a proper prefix first.
pub open spec fn text_lt(a: Seq<char>, b: Seq<char>) -> bool
    decreases a.len(),
{
    if b.len() == 0 {
        false
    } else if a.len() == 0 {
        true
    } else if a[0] != b[0] {
        (a[0] as int) < (b[0] as int)
    } else {
        text_lt(a.drop_first(), b.drop_first())
    }
}

/// `a` comes before `b` or equals it.
pub open spec fn text_le(a: Seq<char>, b: Seq<char>) -> bool {
    a == b || text_lt(a, b)
}

/// No name comes before itself.
pub proof fn lemma_text_lt_irreflexive(a: Seq<char>)
    ensures
        !text_lt(a, a),
    decreases a.len(),
{
    if a.len() > 0 {
        lemma_text_lt_irreflexive(a.drop_first());
    }
}

/// Of two different names one comes before the other.
pub proof fn lemma_text_lt_total(a: Seq<char>, b: Seq<char>)
    ensures
        a == b || text_lt(a, b) || text_lt(b, a),
    decreases a.len(),
{
    if a.len() > 0 && b.len() > 0 && a[0] == b[0] {
        lemma_text_lt_total(a.drop_first(), b.drop_first());
        if a.drop_first() == b.drop_first() {
            assert(a =~= seq![a[0]] + a.drop_first());
            assert(b =~= seq![b[0]] + b.drop_first());
        }
    }
}

/// The order of names is transitive.
pub proof fn lemma_text_lt_transitive(a: Seq<char>, b: Seq<char>, c: Seq<char>)
    requires
        text_lt(a, b),
        text_lt(b, c),
    ensures
        text_lt(a, c),
    decreases a.len(),
{
    if a.len() > 0 && a[0] == b[0] && b[0] == c[0] {
        lemma_text_lt_transitive(a.drop_first(), b.drop_first(), c.drop_first());
    }
}

/// No two names come before each other.
pub proof fn lemma_text_lt_asymmetric(a: Seq<char>, b: Seq<char>)
    requires
        text_lt(a, b),
    ensures
        !text_lt(b, a),
{
    if text_lt(b, a) {
        lemma_text_lt_transitive(a, b, a);
        lemma_text_lt_irreflexive(a);
    }
}

/// Position `a` goes before position `b` when `keys` are sorted without
/// reordering equal keys: by key first, by position among equal keys.
pub open spec fn goes_before(keys: Seq<Seq<char>>, a: int, b: int) -> bool {
    text_lt(keys[a], keys[b]) || (keys[a] == keys[b] && a < b)
}

/// `order` lists every position of `keys` once, so that the keys ascend and
/// equal keys keep the order of their positions.
pub open spec fn is_stable_order(keys: Seq<Seq<char>>, order: Seq<int>) -> bool {
    &&& order.len() == keys.len()
    &&& forall|i: int| 0 <= i < order.len() ==> 0 <= #[trigger] order[i] < keys.len()
    &&& forall|i: int, j: int|
        0 <= i < j < order.len() ==> goes_before(keys, #[trigger] order[i], #[trigger] order[j])
}

/// The items of `items` in the order that `order` lists their positions.
pub open spec fn reordered<T>(items: Seq<T>, order: Seq<int>) -> Seq<T> {
    Seq::new(order.len(), |i: int| items[order[i]])
}

proof fn lemma_goes_before_is_strict(keys: Seq<Seq<char>>, a: int, b: int)
    requires
        goes_before(keys, a, b),
    ensures
        a != b,
        !goes_before(keys, b, a),
{
    lemma_text_lt_irreflexive(keys[a]);
    if text_lt(keys[a], keys[b]) {
        lemma_text_lt_asymmetric(keys[a], keys[b]);
    }
    if text_lt(keys[b], keys[a]) {
        lemma_text_lt_asymmetric(keys[b], keys[a]);
    }
}

proof fn lemma_goes_before_total(keys: Seq<Seq<char>>, a: int, b: int)
    ensures
        a == b || goes_before(keys, a, b) || goes_before(keys, b, a),
{
    lemma_text_lt_total(keys[a], keys[b]);
}

/// A stable order lists no position twice.
pub proof fn lemma_stable_order_has_no_duplicates(keys: Seq<Seq<char>>, order: Seq<int>)
    requires
        is_stable_order(keys, order),
    ensures
        order.no_duplicates(),
{
    assert forall|i: int, j: int|
        0 <= i < order.len() && 0 <= j < order.len() && i != j implies order[i] != order[j] by {
        if i < j {
            lemma_goes_before_is_strict(keys, order[i], order[j]);
        } else {
            lemma_goes_before_is_strict(keys, order[j], order[i]);
        }
    }
}

/// A stable order lists every position of `keys`.
pub proof fn lemma_stable_order_is_onto(keys: Seq<Seq<char>>, order: Seq<int>, position: int)
    requires
        is_stable_order(keys, order),
        0 <= position < keys.len(),
    ensures
        exists|i: int| 0 <= i < order.len() && order[i] == position,
{
    let listed = order.to_set();
    let all = vstd::set_lib::set_int_range(0, keys.len() as int);
    lemma_stable_order_has_no_duplicates(keys, order);
    order.unique_seq_to_set();
    vstd::set_lib::lemma_int_range(0, keys.len() as int);
    assert(listed.subset_of(all));
    vstd::set_lib::lemma_subset_equality(listed, all);
    assert(listed.contains(position));
}

proof fn lemma_stable_orders_agree_up_to(
    keys: Seq<Seq<char>>,
    first: Seq<int>,
    second: Seq<int>,
    upto: int,
)
    requires
        is_stable_order(keys, first),
        is_stable_order(keys, second),
        0 <= upto <= keys.len(),
    ensures
        forall|k: int| 0 <= k < upto ==> first[k] == second[k],
    decreases upto,
{
    if upto > 0 {
        let i = upto - 1;
        lemma_stable_orders_agree_up_to(keys, first, second, i);
        let a = first[i];
        let b = second[i];
        if a != b {
            lemma_goes_before_total(keys, a, b);
            lemma_not_before_its_counterpart(keys, first, second, i);
            lemma_not_before_its_counterpart(keys, second, first, i);
        }
    }
}

proof fn lemma_not_before_its_counterpart(
    keys: Seq<Seq<char>>,
    first: Seq<int>,
    second: Seq<int>,
    i: int,
)
    requires
        is_stable_order(keys, first),
        is_stable_order(keys, second),
        0 <= i < keys.len(),
        forall|k: int| 0 <= k < i ==> first[k] == second[k],
    ensures
        !goes_before(keys, first[i], second[i]),
{
    if goes_before(keys, first[i], second[i]) {
        let a = first[i];
        lemma_stable_order_is_onto(keys, second, a);
        let j = choose|j: int| 0 <= j < second.len() && second[j] == a;
        lemma_goes_before_is_strict(keys, first[i], second[i]);
        if j < i {
            lemma_goes_before_is_strict(keys, first[j], first[i]);
        }
    }
}

/// The keys have exactly one stable order.
pub proof fn lemma_stable_order_unique(keys: Seq<Seq<char>>, first: Seq<int>, second: Seq<int>)
    requires
        is_stable_order(keys, first),
        is_stable_order(keys, second),
    ensures
        first == second,
{
    lemma_stable_orders_agree_up_to(keys, first, second, keys.len() as int);
}

/// Along a stable order the keys never descend.
pub proof fn lemma_stable_order_ascends(keys: Seq<Seq<char>>, order: Seq<int>, i: int, j: int)
    requires
        is_stable_order(keys, order),
        0 <= i <= j < order.len(),
    ensures
        text_le(keys[order[i]], keys[order[j]]),
{
}

} // verus!
