use vstd::prelude::*;

use crate::api::ConnectionSummary;
use crate::text::{chars_of, same_text};

verus! {

/// `a` comes before `b` or equals it in the order of `str`'s `Ord`:
/// character by character, by code point, a prefix first.
pub open spec fn text_le(a: Seq<char>, b: Seq<char>) -> bool
    decreases a.len(),
{
    if a.len() == 0 {
        true
    } else if b.len() == 0 {
        false
    } else if a[0] != b[0] {
        a[0] < b[0]
    } else {
        text_le(a.drop_first(), b.drop_first())
    }
}

/// Any two texts are ordered one way or the other.
pub proof fn lemma_text_le_total(a: Seq<char>, b: Seq<char>)
    ensures
        text_le(a, b) || text_le(b, a),
    decreases a.len(),
{
    if a.len() > 0 && b.len() > 0 && a[0] == b[0] {
        lemma_text_le_total(a.drop_first(), b.drop_first());
    }
}

/// The order of texts is transitive.
pub proof fn lemma_text_le_transitive(a: Seq<char>, b: Seq<char>, c: Seq<char>)
    requires
        text_le(a, b),
        text_le(b, c),
    ensures
        text_le(a, c),
    decreases a.len(),
{
    if a.len() > 0 && b.len() > 0 && c.len() > 0 && a[0] == b[0] && b[0] == c[0] {
        lemma_text_le_transitive(a.drop_first(), b.drop_first(), c.drop_first());
    }
}

/// The order of texts is `str`'s lexicographic order: a text comes before
/// every longer text it begins, and not after it; otherwise the first
/// character in which two texts differ decides, by code point. Texts
/// ordered both ways are equal.
pub proof fn lemma_text_le_is_lexicographic(a: Seq<char>, b: Seq<char>)
    ensures
        a.len() <= b.len() && b.subrange(0, a.len() as int) == a ==> text_le(a, b),
        a.len() < b.len() && b.subrange(0, a.len() as int) == a ==> !text_le(b, a),
        forall|i: int|
            0 <= i < a.len() && i < b.len() && a.subrange(0, i) == b.subrange(0, i) && a[i] != b[i]
                ==> (#[trigger] text_le(a, b) == (a[i] < b[i]) && text_le(b, a) == (b[i] < a[i])),
        text_le(a, b) && text_le(b, a) ==> a == b,
    decreases a.len(),
{
    if a.len() > 0 && b.len() > 0 {
        let (a1, b1) = (a.drop_first(), b.drop_first());
        lemma_text_le_is_lexicographic(a1, b1);
        if a.len() <= b.len() && b.subrange(0, a.len() as int) == a {
            assert(a[0] == b.subrange(0, a.len() as int)[0]);
            assert(b1.subrange(0, a1.len() as int) =~= b.subrange(0, a.len() as int).drop_first());
        }
        assert forall|i: int|
            0 <= i < a.len() && i < b.len() && a.subrange(0, i) == b.subrange(0, i) && a[i] != b[i]
                implies (#[trigger] text_le(a, b) == (a[i] < b[i]) && text_le(b, a) == (b[i] < a[i])) by {
            if i > 0 {
                assert(a[0] == a.subrange(0, i)[0]);
                assert(b[0] == b.subrange(0, i)[0]);
                assert(a1.subrange(0, i - 1) =~= a.subrange(0, i).drop_first());
                assert(b1.subrange(0, i - 1) =~= b.subrange(0, i).drop_first());
                assert(a1[i - 1] == a[i] && b1[i - 1] == b[i]);
                assert(text_le(a1, b1) == (a1[i - 1] < b1[i - 1]));
            }
        }
        if text_le(a, b) && text_le(b, a) {
            assert(a[0] == b[0]);
            assert(a =~= seq![a[0]] + a1);
            assert(b =~= seq![b[0]] + b1);
        }
    } else if a.len() == 0 && b.len() == 0 {
        assert(a =~= b);
    }
}

/// Whether `a` comes before `b` or equals it, as `a <= b` on `str`.
pub fn text_le_exec(a: &str, b: &str) -> (res: bool)
    ensures
        res == text_le(a@, b@),
{
    let x = chars_of(a);
    let y = chars_of(b);
    let mut i: usize = 0;
    assert(a@.skip(0) =~= a@);
    assert(b@.skip(0) =~= b@);
    while i < x.len() && i < y.len() && x[i] == y[i]
        invariant
            x@ == a@,
            y@ == b@,
            i <= x@.len(),
            i <= y@.len(),
            text_le(a@, b@) == text_le(a@.skip(i as int), b@.skip(i as int)),
        decreases x@.len() - i,
    {
        assert(a@.skip(i as int).drop_first() =~= a@.skip(i + 1));
        assert(b@.skip(i as int).drop_first() =~= b@.skip(i + 1));
        i = i + 1;
    }
    if i == x.len() {
        true
    } else if i == y.len() {
        false
    } else {
        x[i] < y[i]
    }
}

/// `sorted` with `item` placed after every entry whose name is not greater
/// than its own.
pub open spec fn insert_by_name(sorted: Seq<ConnectionSummary>, item: ConnectionSummary) -> Seq<ConnectionSummary>
    decreases sorted.len(),
{
    if sorted.len() == 0 {
        seq![item]
    } else if text_le(sorted.last().name@, item.name@) {
        sorted.push(item)
    } else {
        insert_by_name(sorted.drop_last(), item).push(sorted.last())
    }
}

/// The connections in the order a stable sort by name leaves them.
pub open spec fn sorted_by_name(list: Seq<ConnectionSummary>) -> Seq<ConnectionSummary>
    decreases list.len(),
{
    if list.len() == 0 {
        list
    } else {
        insert_by_name(sorted_by_name(list.drop_last()), list.last())
    }
}

/// Every entry's name is not greater than the next one's.
pub open spec fn is_sorted_by_name(list: Seq<ConnectionSummary>) -> bool {
    forall|i: int, j: int| 0 <= i < j < list.len() ==> text_le(list[i].name@, list[j].name@)
}

proof fn lemma_insert_by_name_at(sorted: Seq<ConnectionSummary>, item: ConnectionSummary, p: int)
    requires
        0 <= p <= sorted.len(),
        forall|k: int| p <= k < sorted.len() ==> !text_le((#[trigger] sorted[k]).name@, item.name@),
        p == 0 || text_le(sorted[p - 1].name@, item.name@),
    ensures
        insert_by_name(sorted, item) == sorted.insert(p, item),
    decreases sorted.len(),
{
    if sorted.len() == 0 {
        assert(sorted.insert(p, item) =~= seq![item]);
    } else if text_le(sorted.last().name@, item.name@) {
        assert(p == sorted.len());
        assert(sorted.insert(p, item) =~= sorted.push(item));
    } else {
        let rest = sorted.drop_last();
        assert forall|k: int| p <= k < rest.len() implies !text_le((#[trigger] rest[k]).name@, item.name@) by {
            assert(rest[k] == sorted[k]);
        }
        if p > 0 {
            assert(rest[p - 1] == sorted[p - 1]);
        }
        lemma_insert_by_name_at(rest, item, p);
        assert(rest.insert(p, item).push(sorted.last()) =~= sorted.insert(p, item));
    }
}

/// Placing an entry keeps a sorted list sorted, and adds just that entry.
pub proof fn lemma_insert_by_name(sorted: Seq<ConnectionSummary>, item: ConnectionSummary)
    requires
        is_sorted_by_name(sorted),
    ensures
        is_sorted_by_name(insert_by_name(sorted, item)),
        insert_by_name(sorted, item).to_multiset() == sorted.to_multiset().insert(item),
        insert_by_name(sorted, item).len() == sorted.len() + 1,
        forall|k: int|
            0 <= k < insert_by_name(sorted, item).len() ==> #[trigger] insert_by_name(sorted, item)[k]
                == item || sorted.contains(insert_by_name(sorted, item)[k]),
    decreases sorted.len(),
{
    broadcast use vstd::seq_lib::group_to_multiset_ensures;

    let r = insert_by_name(sorted, item);
    if sorted.len() == 0 {
        assert(r =~= seq![item]);
        assert(Seq::<ConnectionSummary>::empty().push(item) =~= seq![item]);
    } else if text_le(sorted.last().name@, item.name@) {
        assert forall|i: int, j: int| 0 <= i < j < r.len() implies text_le(r[i].name@, r[j].name@) by {
            if j == sorted.len() {
                if i < sorted.len() - 1 {
                    lemma_text_le_transitive(sorted[i].name@, sorted.last().name@, item.name@);
                }
            }
        }
        assert forall|k: int| 0 <= k < r.len() implies #[trigger] r[k] == item || sorted.contains(r[k]) by {
            if k < sorted.len() {
                assert(sorted[k] == r[k]);
            }
        }
    } else {
        let rest = sorted.drop_last();
        let last = sorted.last();
        assert(is_sorted_by_name(rest)) by {
            assert forall|i: int, j: int| 0 <= i < j < rest.len() implies text_le(rest[i].name@, rest[j].name@) by {
                assert(rest[i] == sorted[i] && rest[j] == sorted[j]);
            }
        }
        lemma_insert_by_name(rest, item);
        let q = insert_by_name(rest, item);
        lemma_text_le_total(last.name@, item.name@);
        assert forall|k: int| 0 <= k < q.len() implies text_le((#[trigger] q[k]).name@, last.name@) by {
            if q[k] != item {
                assert(rest.contains(q[k]));
                let j = choose|j: int| 0 <= j < rest.len() && rest[j] == q[k];
                assert(sorted[j] == q[k]);
            }
        }
        assert(r == q.push(last));
        assert forall|i: int, j: int| 0 <= i < j < r.len() implies text_le(r[i].name@, r[j].name@) by {
            if j == q.len() {
                assert(r[i] == q[i]);
            } else {
                assert(r[i] == q[i] && r[j] == q[j]);
            }
        }
        assert forall|k: int| 0 <= k < r.len() implies #[trigger] r[k] == item || sorted.contains(r[k]) by {
            if k < q.len() {
                assert(r[k] == q[k]);
                if q[k] != item {
                    let j = choose|j: int| 0 <= j < rest.len() && rest[j] == q[k];
                    assert(sorted[j] == q[k]);
                }
            } else {
                assert(sorted[sorted.len() - 1] == r[k]);
            }
        }
        assert(sorted =~= rest.push(last));
    }
}

/// Sorting by name gives a sorted list of the same entries.
pub proof fn lemma_sorted_by_name(list: Seq<ConnectionSummary>)
    ensures
        is_sorted_by_name(sorted_by_name(list)),
        sorted_by_name(list).to_multiset() == list.to_multiset(),
        sorted_by_name(list).len() == list.len(),
    decreases list.len(),
{
    broadcast use vstd::seq_lib::group_to_multiset_ensures;

    if list.len() > 0 {
        lemma_sorted_by_name(list.drop_last());
        lemma_insert_by_name(sorted_by_name(list.drop_last()), list.last());
        assert(list =~= list.drop_last().push(list.last()));
    }
}

fn insert_connection_by_name(sorted: &mut Vec<ConnectionSummary>, item: ConnectionSummary)
    ensures
        final(sorted)@ == insert_by_name(old(sorted)@, item),
{
    let mut p = sorted.len();
    while p > 0 && !text_le_exec(sorted[p - 1].name.as_str(), item.name.as_str())
        invariant
            p <= sorted@.len(),
            sorted@ == old(sorted)@,
            forall|k: int| p <= k < sorted@.len() ==> !text_le((#[trigger] sorted@[k]).name@, item.name@),
        decreases p,
    {
        p = p - 1;
    }
    proof {
        lemma_insert_by_name_at(sorted@, item, p as int);
    }
    sorted.insert(p, item);
}

/// The connections sorted by name, stably, as `sort_by` on the names does.
pub fn sort_connections_by_name(list: Vec<ConnectionSummary>) -> (sorted: Vec<ConnectionSummary>)
    ensures
        sorted@ == sorted_by_name(list@),
{
    let ghost all = list@;
    let mut rest = list;
    let mut sorted: Vec<ConnectionSummary> = Vec::new();
    let mut k: usize = 0;
    let n = rest.len();
    assert(all.take(0) =~= Seq::<ConnectionSummary>::empty());
    while rest.len() > 0
        invariant
            k + rest@.len() == all.len(),
            all.len() == n,
            rest@ == all.skip(k as int),
            sorted@ == sorted_by_name(all.take(k as int)),
        decreases rest@.len(),
    {
        let item = rest.remove(0);
        assert(all[k as int] == item);
        assert(all.take(k + 1).drop_last() =~= all.take(k as int));
        insert_connection_by_name(&mut sorted, item);
        k = k + 1;
        assert(rest@ =~= all.skip(k as int));
    }
    assert(all.take(k as int) =~= all);
    sorted
}

/// The list with the first entry of the same id replaced by `item`, or
/// with `item` appended when no entry has its id.
pub open spec fn replace_or_append(list: Seq<ConnectionSummary>, item: ConnectionSummary) -> Seq<ConnectionSummary>
    decreases list.len(),
{
    if list.len() == 0 {
        seq![item]
    } else if list[0].id@ == item.id@ {
        list.update(0, item)
    } else {
        seq![list[0]] + replace_or_append(list.drop_first(), item)
    }
}

proof fn lemma_replace_at(list: Seq<ConnectionSummary>, item: ConnectionSummary, i: int)
    requires
        0 <= i <= list.len(),
        forall|k: int| 0 <= k < i ==> (#[trigger] list[k]).id@ != item.id@,
        i == list.len() || list[i].id@ == item.id@,
    ensures
        replace_or_append(list, item) == if i == list.len() {
            list.push(item)
        } else {
            list.update(i, item)
        },
    decreases i,
{
    if list.len() == 0 {
        assert(list.push(item) =~= seq![item]);
    } else if i > 0 {
        let rest = list.drop_first();
        assert(list[0].id@ != item.id@);
        assert forall|k: int| 0 <= k < i - 1 implies (#[trigger] rest[k]).id@ != item.id@ by {
            assert(rest[k] == list[k + 1]);
        }
        if i < list.len() {
            assert(rest[i - 1] == list[i]);
        }
        lemma_replace_at(rest, item, i - 1);
        if i == list.len() {
            assert(seq![list[0]] + rest.push(item) =~= list.push(item));
        } else {
            assert(seq![list[0]] + rest.update(i - 1, item) =~= list.update(i, item));
        }
    }
}

/// Puts a saved connection into the list: it replaces the first entry
/// with its id, or is added, and the list is then sorted by name.
pub fn upsert_into(list: Vec<ConnectionSummary>, item: ConnectionSummary) -> (res: Vec<ConnectionSummary>)
    ensures
        res@ == sorted_by_name(replace_or_append(list@, item)),
{
    let ghost start = list@;
    let mut list = list;
    let mut i: usize = 0;
    while i < list.len() && !same_text(list[i].id.as_str(), item.id.as_str())
        invariant
            i <= list@.len(),
            list@ == start,
            forall|k: int| 0 <= k < i ==> (#[trigger] list@[k]).id@ != item.id@,
        decreases list@.len() - i,
    {
        i = i + 1;
    }
    proof {
        lemma_replace_at(list@, item, i as int);
    }
    if i < list.len() {
        list.set(i, item);
    } else {
        list.push(item);
    }
    sort_connections_by_name(list)
}

/// The entry of the list with the given id, if any: the first one.
pub fn find_by_id<'a>(list: &'a Vec<ConnectionSummary>, id: &str) -> (res: Option<&'a ConnectionSummary>)
    ensures
        res is None <==> (forall|k: int| 0 <= k < list@.len() ==> (#[trigger] list@[k]).id@ != id@),
        res matches Some(c) ==> exists|k: int|
            0 <= k < list@.len() && list@[k] == *c && list@[k].id@ == id@ && (forall|j: int|
                0 <= j < k ==> (#[trigger] list@[j]).id@ != id@),
{
    let mut i: usize = 0;
    while i < list.len()
        invariant
            i <= list@.len(),
            forall|k: int| 0 <= k < i ==> (#[trigger] list@[k]).id@ != id@,
        decreases list@.len() - i,
    {
        if same_text(list[i].id.as_str(), id) {
            return Some(&list[i]);
        }
        i = i + 1;
    }
    None
}

/// The list without the entries that have the given id, in order.
pub open spec fn without_id(list: Seq<ConnectionSummary>, id: Seq<char>) -> Seq<ConnectionSummary> {
    list.filter(other_id(id))
}

/// Whether a connection has another id than `id`.
pub open spec fn other_id(id: Seq<char>) -> spec_fn(ConnectionSummary) -> bool {
    |c: ConnectionSummary| c.id@ != id
}

/// Drops every entry with the given id, keeping the order of the others.
pub fn retain_other_ids(list: Vec<ConnectionSummary>, id: &str) -> (res: Vec<ConnectionSummary>)
    ensures
        res@ == without_id(list@, id@),
{
    let ghost all = list@;
    let mut rest = list;
    let mut kept: Vec<ConnectionSummary> = Vec::new();
    let n = rest.len();
    let mut k: usize = 0;
    assert(all.take(0) =~= Seq::<ConnectionSummary>::empty());
    while rest.len() > 0
        invariant
            k + rest@.len() == all.len(),
            all.len() == n,
            rest@ == all.skip(k as int),
            kept@ == without_id(all.take(k as int), id@),
        decreases rest@.len(),
    {
        let item = rest.remove(0);
        assert(all[k as int] == item);
        assert(all.take(k + 1).drop_last() =~= all.take(k as int));
        reveal_with_fuel(Seq::filter, 1);
        if !same_text(item.id.as_str(), id) {
            kept.push(item);
        }
        k = k + 1;
        assert(rest@ =~= all.skip(k as int));
    }
    assert(all.take(k as int) =~= all);
    kept
}

proof fn lemma_replace_or_append_shape(list: Seq<ConnectionSummary>, item: ConnectionSummary)
    ensures
        replace_or_append(list, item).contains(item),
        forall|k: int|
            0 <= k < replace_or_append(list, item).len() ==> #[trigger] replace_or_append(list, item)[k]
                == item || list.contains(replace_or_append(list, item)[k]),
    decreases list.len(),
{
    let r = replace_or_append(list, item);
    if list.len() == 0 {
        assert(r[0] == item);
    } else if list[0].id@ == item.id@ {
        assert(r[0] == item);
        assert forall|k: int| 0 <= k < r.len() implies #[trigger] r[k] == item || list.contains(r[k]) by {
            if k > 0 {
                assert(list[k] == r[k]);
            }
        }
    } else {
        let rest = list.drop_first();
        lemma_replace_or_append_shape(rest, item);
        let q = replace_or_append(rest, item);
        let j = choose|j: int| 0 <= j < q.len() && q[j] == item;
        assert(r[j + 1] == item);
        assert forall|k: int| 0 <= k < r.len() implies #[trigger] r[k] == item || list.contains(r[k]) by {
            if k == 0 {
                assert(list[0] == r[0]);
            } else {
                assert(r[k] == q[k - 1]);
                if q[k - 1] != item {
                    let m = choose|m: int| 0 <= m < rest.len() && rest[m] == q[k - 1];
                    assert(list[m + 1] == rest[m]);
                }
            }
        }
    }
}

/// After a connection is saved into the list, the list is sorted by name,
/// holds the saved connection, and holds nothing but it and entries that
/// were there before.
pub proof fn lemma_upsert_lists_saved_connection(list: Seq<ConnectionSummary>, item: ConnectionSummary)
    ensures
        is_sorted_by_name(sorted_by_name(replace_or_append(list, item))),
        sorted_by_name(replace_or_append(list, item)).contains(item),
        forall|k: int|
            0 <= k < sorted_by_name(replace_or_append(list, item)).len() ==> #[trigger] sorted_by_name(
                replace_or_append(list, item),
            )[k] == item || list.contains(sorted_by_name(replace_or_append(list, item))[k]),
{
    broadcast use vstd::seq_lib::group_to_multiset_ensures;

    let r = replace_or_append(list, item);
    let s = sorted_by_name(r);
    lemma_replace_or_append_shape(list, item);
    lemma_sorted_by_name(r);
    assert(r.to_multiset().count(item) > 0);
    assert(s.to_multiset().count(item) > 0);
    assert forall|k: int| 0 <= k < s.len() implies #[trigger] s[k] == item || list.contains(s[k]) by {
        assert(s.to_multiset().count(s[k]) > 0);
        assert(r.contains(s[k]));
        let m = choose|m: int| 0 <= m < r.len() && r[m] == s[k];
        assert(r[m] == item || list.contains(r[m]));
    }
}

/// After a deletion no listed connection has the deleted id, and every
/// other connection that was listed still is.
pub proof fn lemma_deleted_id_gone(list: Seq<ConnectionSummary>, id: Seq<char>)
    ensures
        forall|k: int| 0 <= k < without_id(list, id).len() ==> (#[trigger] without_id(list, id)[k]).id@ != id,
        forall|c: ConnectionSummary| c.id@ != id ==> (list.contains(c) <==> #[trigger] without_id(list, id).contains(c)),
{
    broadcast use vstd::seq_lib::group_filter_ensures;

    let f = other_id(id);
    assert forall|c: ConnectionSummary| c.id@ != id implies (list.contains(c) <==> #[trigger] without_id(list, id).contains(c)) by {
        if list.contains(c) {
            let m = choose|m: int| 0 <= m < list.len() && list[m] == c;
            list.lemma_filter_contains(f, m);
        }
        if without_id(list, id).contains(c) {
            list.lemma_filter_contains_rev(f, c);
        }
    }
}

/// No two entries of the list have the same id.
pub open spec fn ids_distinct(list: Seq<ConnectionSummary>) -> bool {
    forall|i: int, j: int| 0 <= i < j < list.len() ==> list[i].id@ != list[j].id@
}

/// Where `insert_by_name` places its entry.
pub open spec fn insert_position(sorted: Seq<ConnectionSummary>, item: ConnectionSummary) -> int
    decreases sorted.len(),
{
    if sorted.len() == 0 {
        0
    } else if text_le(sorted.last().name@, item.name@) {
        sorted.len() as int
    } else {
        insert_position(sorted.drop_last(), item)
    }
}

proof fn lemma_insert_position(sorted: Seq<ConnectionSummary>, item: ConnectionSummary)
    ensures
        0 <= insert_position(sorted, item) <= sorted.len(),
        insert_by_name(sorted, item) == sorted.insert(insert_position(sorted, item), item),
    decreases sorted.len(),
{
    if sorted.len() == 0 {
        assert(sorted.insert(0, item) =~= seq![item]);
    } else if text_le(sorted.last().name@, item.name@) {
        assert(sorted.insert(sorted.len() as int, item) =~= sorted.push(item));
    } else {
        let rest = sorted.drop_last();
        lemma_insert_position(rest, item);
        let p = insert_position(rest, item);
        assert(rest.insert(p, item).push(sorted.last()) =~= sorted.insert(p, item));
    }
}

proof fn lemma_insert_fresh_id(list: Seq<ConnectionSummary>, item: ConnectionSummary, p: int)
    requires
        ids_distinct(list),
        0 <= p <= list.len(),
        forall|k: int| 0 <= k < list.len() ==> (#[trigger] list[k]).id@ != item.id@,
    ensures
        ids_distinct(list.insert(p, item)),
{
    let r = list.insert(p, item);
    assert forall|i: int, j: int| 0 <= i < j < r.len() implies r[i].id@ != r[j].id@ by {
        if i < p && j < p {
            assert(r[i] == list[i] && r[j] == list[j]);
        } else if i < p && j == p {
            assert(r[i] == list[i]);
        } else if i < p {
            assert(r[i] == list[i] && r[j] == list[j - 1]);
        } else if i == p {
            assert(r[j] == list[j - 1]);
        } else {
            assert(r[i] == list[i - 1] && r[j] == list[j - 1]);
        }
    }
}

proof fn lemma_sorted_ids_distinct(list: Seq<ConnectionSummary>)
    requires
        ids_distinct(list),
    ensures
        ids_distinct(sorted_by_name(list)),
    decreases list.len(),
{
    broadcast use vstd::seq_lib::group_to_multiset_ensures;

    if list.len() > 0 {
        let rest = list.drop_last();
        let last = list.last();
        assert(ids_distinct(rest)) by {
            assert forall|i: int, j: int| 0 <= i < j < rest.len() implies rest[i].id@ != rest[j].id@ by {
                assert(rest[i] == list[i] && rest[j] == list[j]);
            }
        }
        lemma_sorted_ids_distinct(rest);
        lemma_sorted_by_name(rest);
        let sorted = sorted_by_name(rest);
        assert forall|k: int| 0 <= k < sorted.len() implies (#[trigger] sorted[k]).id@ != last.id@ by {
            assert(sorted.to_multiset().count(sorted[k]) > 0);
            assert(rest.contains(sorted[k]));
            let m = choose|m: int| 0 <= m < rest.len() && rest[m] == sorted[k];
            assert(list[m] == rest[m]);
        }
        lemma_insert_position(sorted, last);
        lemma_insert_fresh_id(sorted, last, insert_position(sorted, last));
    }
}

proof fn lemma_replace_or_append_ids_distinct(list: Seq<ConnectionSummary>, item: ConnectionSummary)
    requires
        ids_distinct(list),
    ensures
        ids_distinct(replace_or_append(list, item)),
    decreases list.len(),
{
    let r = replace_or_append(list, item);
    if list.len() == 0 {
    } else if list[0].id@ == item.id@ {
        assert forall|i: int, j: int| 0 <= i < j < r.len() implies r[i].id@ != r[j].id@ by {
            assert(r[j] == list[j]);
            if i > 0 {
                assert(r[i] == list[i]);
            }
        }
    } else {
        let rest = list.drop_first();
        assert(ids_distinct(rest)) by {
            assert forall|i: int, j: int| 0 <= i < j < rest.len() implies rest[i].id@ != rest[j].id@ by {
                assert(rest[i] == list[i + 1] && rest[j] == list[j + 1]);
            }
        }
        lemma_replace_or_append_ids_distinct(rest, item);
        lemma_replace_or_append_shape(rest, item);
        let q = replace_or_append(rest, item);
        assert forall|i: int, j: int| 0 <= i < j < r.len() implies r[i].id@ != r[j].id@ by {
            assert(r[j] == q[j - 1]);
            if i == 0 {
                assert(r[0] == list[0]);
                if q[j - 1] != item {
                    let m = choose|m: int| 0 <= m < rest.len() && rest[m] == q[j - 1];
                    assert(list[m + 1] == rest[m]);
                }
            } else {
                assert(r[i] == q[i - 1]);
            }
        }
    }
}

/// Saving a connection into a list in which no id occurs twice leaves a
/// list in which no id occurs twice.
pub proof fn lemma_upsert_keeps_ids_distinct(list: Seq<ConnectionSummary>, item: ConnectionSummary)
    requires
        ids_distinct(list),
    ensures
        ids_distinct(sorted_by_name(replace_or_append(list, item))),
{
    lemma_replace_or_append_ids_distinct(list, item);
    lemma_sorted_ids_distinct(replace_or_append(list, item));
}

} // verus!
