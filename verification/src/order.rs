//! The order in which entries are shown: ascending by title, entries of one
//! title in the order of the index.

use crate::entry::{views, EntryView, IndexEntry};
use itertools::Itertools;
use vstd::prelude::*;
use vstd::seq_lib::{to_multiset_contains, to_multiset_len};

verus! {

/// Whether title `a` stands before title `b` or equals it. Titles are
/// compared character by character by their code points; a title stands
/// before each of its extensions.
pub open spec fn title_le(a: Seq<char>, b: Seq<char>) -> bool
    decreases a.len(),
{
    if a.len() == 0 {
        true
    } else if b.len() == 0 {
        false
    } else if a[0] == b[0] {
        title_le(a.drop_first(), b.drop_first())
    } else {
        (a[0] as u32) < (b[0] as u32)
    }
}

/// Whether the titles of `entries` never descend.
pub open spec fn titles_ascend(entries: Seq<EntryView>) -> bool {
    forall|i: int, j: int|
        0 <= i < j < entries.len() ==> title_le(
            (#[trigger] entries[i]).title,
            (#[trigger] entries[j]).title,
        )
}

/// The test that an entry carries the title `title`.
pub open spec fn has_title(title: Seq<char>) -> spec_fn(EntryView) -> bool {
    |entry: EntryView| entry.title == title
}

/// The entries of `entries` that carry the title `title`, in their order.
pub open spec fn with_title(entries: Seq<EntryView>, title: Seq<char>) -> Seq<EntryView> {
    entries.filter(has_title(title))
}

/// Whether `sorted` is `entries` in title order: the same entries, each as
/// often as in `entries`, with titles that never descend, and the entries of
/// any one title in the order that they have in `entries`.
pub open spec fn is_sorted_by_title(sorted: Seq<EntryView>, entries: Seq<EntryView>) -> bool {
    &&& sorted.to_multiset() == entries.to_multiset()
    &&& titles_ascend(sorted)
    &&& forall|title: Seq<char>| #[trigger]
        with_title(sorted, title) == with_title(entries, title)
}

/// The entries of `entries` in title order. There is such a sequence
/// ([`lemma_title_order_exists`]) and only one
/// ([`lemma_sorted_by_title_unique`]).
pub open spec fn title_order(entries: Seq<EntryView>) -> Seq<EntryView> {
    choose|sorted: Seq<EntryView>| is_sorted_by_title(sorted, entries)
}

/// Sorts entries by title with `Itertools::sorted_by_key`, collected by
/// `Itertools::collect_vec`. The sort is the stable `slice::sort_by_key` on
/// the titles as `String` keys, which `Ord` orders by code points: so the
/// result is the argument in title order. The contract is taken on trust;
/// the body is not verified.
#[verifier::external_body]
pub(crate) fn sorted_by_title(entries: Vec<IndexEntry>) -> (sorted: Vec<IndexEntry>)
    ensures
        is_sorted_by_title(views(sorted@), views(entries@)),
{
    entries.into_iter().sorted_by_key(|entry| entry.title()).collect_vec()
}

/// Every title stands before or equals itself.
pub proof fn lemma_title_le_reflexive(a: Seq<char>)
    ensures
        title_le(a, a),
    decreases a.len(),
{
    if a.len() > 0 {
        lemma_title_le_reflexive(a.drop_first());
    }
}

/// Two titles that stand before or equal each other are the same title.
pub proof fn lemma_title_le_antisymmetric(a: Seq<char>, b: Seq<char>)
    requires
        title_le(a, b),
        title_le(b, a),
    ensures
        a == b,
    decreases a.len(),
{
    if a.len() > 0 {
        lemma_title_le_antisymmetric(a.drop_first(), b.drop_first());
        assert(a =~= seq![a[0]] + a.drop_first());
        assert(b =~= seq![b[0]] + b.drop_first());
    } else {
        assert(a =~= b);
    }
}

/// The order of titles is transitive.
pub proof fn lemma_title_le_transitive(a: Seq<char>, b: Seq<char>, c: Seq<char>)
    requires
        title_le(a, b),
        title_le(b, c),
    ensures
        title_le(a, c),
    decreases a.len(),
{
    if a.len() > 0 && a[0] == b[0] && b[0] == c[0] {
        lemma_title_le_transitive(a.drop_first(), b.drop_first(), c.drop_first());
    }
}

/// Of two titles one stands before the other, or they are equal.
pub proof fn lemma_title_le_total(a: Seq<char>, b: Seq<char>)
    ensures
        title_le(a, b) || title_le(b, a),
    decreases a.len(),
{
    if a.len() > 0 && b.len() > 0 {
        if a[0] == b[0] {
            lemma_title_le_total(a.drop_first(), b.drop_first());
        } else {
            vstd::utf8::char_u32_cast(a[0], a[0] as u32);
            vstd::utf8::char_u32_cast(b[0], b[0] as u32);
        }
    }
}

/// The title of the last entry of an ascending sequence is reached from the
/// title of each of its entries.
proof fn lemma_last_title_is_greatest(entries: Seq<EntryView>, entry: EntryView)
    requires
        titles_ascend(entries),
        entries.contains(entry),
    ensures
        title_le(entry.title, entries.last().title),
{
    let i = choose|i: int| 0 <= i < entries.len() && entries[i] == entry;
    if i == entries.len() - 1 {
        lemma_title_le_reflexive(entry.title);
    }
}

/// What an entry appended to `entries` adds to the entries of a title.
proof fn lemma_with_title_push(entries: Seq<EntryView>, entry: EntryView, title: Seq<char>)
    ensures
        with_title(entries.push(entry), title) == if entry.title == title {
            with_title(entries, title).push(entry)
        } else {
            with_title(entries, title)
        },
{
    entries.lemma_filter_push(entry, has_title(title));
}

/// Two ascending sequences that hold the same entries, and the entries of
/// each title in the same order, are the same sequence.
proof fn lemma_same_order(a: Seq<EntryView>, b: Seq<EntryView>)
    requires
        a.to_multiset() == b.to_multiset(),
        titles_ascend(a),
        titles_ascend(b),
        forall|title: Seq<char>| #[trigger] with_title(a, title) == with_title(b, title),
    ensures
        a == b,
    decreases a.len(),
{
    a.to_multiset_ensures();
    b.to_multiset_ensures();
    if a.len() == 0 {
        assert(a =~= b);
    } else {
        let x = a.last();
        let y = b.last();
        assert(a[a.len() - 1] == x);
        assert(b[b.len() - 1] == y);
        assert(a.contains(x));
        assert(b.contains(y));
        to_multiset_contains(a, x);
        to_multiset_contains(b, x);
        to_multiset_contains(a, y);
        to_multiset_contains(b, y);
        lemma_last_title_is_greatest(b, x);
        lemma_last_title_is_greatest(a, y);
        lemma_title_le_antisymmetric(x.title, y.title);
        let a1 = a.drop_last();
        let b1 = b.drop_last();
        let t = x.title;
        assert(a =~= a1.push(x));
        assert(b =~= b1.push(y));
        lemma_with_title_push(a1, x, t);
        lemma_with_title_push(b1, y, t);
        assert(with_title(a, t) == with_title(b, t));
        assert(with_title(a1, t).push(x).last() == x);
        assert(with_title(b1, t).push(y).last() == y);
        assert(x == y);
        a1.to_multiset_ensures();
        b1.to_multiset_ensures();
        assert(a1.to_multiset() =~= b1.to_multiset()) by {
            assert forall|v: EntryView| a1.to_multiset().count(v) == b1.to_multiset().count(
                v,
            ) by {
                assert(a1.to_multiset().insert(x).count(v) == b1.to_multiset().insert(x).count(v));
            }
        }
        assert forall|title: Seq<char>| #[trigger]
            with_title(a1, title) == with_title(b1, title) by {
            assert(with_title(a, title) == with_title(b, title));
            lemma_with_title_push(a1, x, title);
            lemma_with_title_push(b1, x, title);
            if title == t {
                assert(with_title(a1, t) =~= with_title(a1, t).push(x).drop_last());
                assert(with_title(b1, t) =~= with_title(b1, t).push(x).drop_last());
            }
        }
        lemma_same_order(a1, b1);
    }
}

/// Title order leaves no choice: any two sequences that are `entries` in
/// title order are equal.
pub proof fn lemma_sorted_by_title_unique(
    a: Seq<EntryView>,
    b: Seq<EntryView>,
    entries: Seq<EntryView>,
)
    requires
        is_sorted_by_title(a, entries),
        is_sorted_by_title(b, entries),
    ensures
        a == b,
{
    assert forall|title: Seq<char>| #[trigger] with_title(a, title) == with_title(b, title) by {
        assert(with_title(a, title) == with_title(entries, title));
        assert(with_title(b, title) == with_title(entries, title));
    }
    lemma_same_order(a, b);
}

/// `sorted` with `entry` put behind the last of its entries whose title does
/// not stand after the title of `entry`.
spec fn placed(sorted: Seq<EntryView>, entry: EntryView) -> Seq<EntryView>
    decreases sorted.len(),
{
    if sorted.len() == 0 || title_le(sorted.last().title, entry.title) {
        sorted.push(entry)
    } else {
        placed(sorted.drop_last(), entry).push(sorted.last())
    }
}

/// The entries of `entries` placed one after the other, from the first on.
spec fn arranged(entries: Seq<EntryView>) -> Seq<EntryView>
    decreases entries.len(),
{
    if entries.len() == 0 {
        entries
    } else {
        placed(arranged(entries.drop_last()), entries.last())
    }
}

/// Placing an entry into an ascending sequence adds that entry, keeps the
/// sequence ascending, and puts the entry behind the entries of its title.
proof fn lemma_placed(sorted: Seq<EntryView>, entry: EntryView)
    requires
        titles_ascend(sorted),
    ensures
        placed(sorted, entry).to_multiset() == sorted.to_multiset().insert(entry),
        titles_ascend(placed(sorted, entry)),
        forall|title: Seq<char>| #[trigger]
            with_title(placed(sorted, entry), title) == with_title(sorted.push(entry), title),
    decreases sorted.len(),
{
    sorted.to_multiset_ensures();
    if sorted.len() == 0 || title_le(sorted.last().title, entry.title) {
        let result = sorted.push(entry);
        assert forall|i: int, j: int| 0 <= i < j < result.len() implies title_le(
            (#[trigger] result[i]).title,
            (#[trigger] result[j]).title,
        ) by {
            if j == sorted.len() {
                if i == sorted.len() - 1 {
                } else {
                    assert(title_le(sorted[i].title, sorted[sorted.len() - 1].title));
                    lemma_title_le_transitive(
                        sorted[i].title,
                        sorted.last().title,
                        entry.title,
                    );
                }
            } else {
                assert(title_le(sorted[i].title, sorted[j].title));
            }
        }
    } else {
        let rest = sorted.drop_last();
        let last = sorted.last();
        let inner = placed(rest, entry);
        let result = inner.push(last);
        assert(sorted =~= rest.push(last));
        assert(titles_ascend(rest)) by {
            assert forall|i: int, j: int| 0 <= i < j < rest.len() implies title_le(
                (#[trigger] rest[i]).title,
                (#[trigger] rest[j]).title,
            ) by {
                assert(title_le(sorted[i].title, sorted[j].title));
            }
        }
        lemma_placed(rest, entry);
        rest.to_multiset_ensures();
        inner.to_multiset_ensures();
        assert(result.to_multiset() =~= sorted.to_multiset().insert(entry));
        lemma_title_le_total(last.title, entry.title);
        assert forall|i: int, j: int| 0 <= i < j < result.len() implies title_le(
            (#[trigger] result[i]).title,
            (#[trigger] result[j]).title,
        ) by {
            if j == inner.len() {
                let x = inner[i];
                assert(inner.contains(x));
                to_multiset_contains(inner, x);
                to_multiset_contains(rest, x);
                if x == entry {
                } else {
                    assert(rest.contains(x));
                    let k = choose|k: int| 0 <= k < rest.len() && rest[k] == x;
                    assert(title_le(sorted[k].title, sorted[sorted.len() - 1].title));
                }
            } else {
                assert(title_le(inner[i].title, inner[j].title));
            }
        }
        assert forall|title: Seq<char>| #[trigger]
            with_title(result, title) == with_title(sorted.push(entry), title) by {
            lemma_with_title_push(inner, last, title);
            assert(with_title(inner, title) == with_title(rest.push(entry), title));
            lemma_with_title_push(rest, entry, title);
            lemma_with_title_push(rest, last, title);
            lemma_with_title_push(sorted, entry, title);
            if entry.title == title && last.title == title {
                lemma_title_le_reflexive(title);
            }
        }
    }
}

/// The arranged entries are the entries in title order.
proof fn lemma_arranged(entries: Seq<EntryView>)
    ensures
        is_sorted_by_title(arranged(entries), entries),
    decreases entries.len(),
{
    if entries.len() == 0 {
    } else {
        let rest = entries.drop_last();
        let last = entries.last();
        lemma_arranged(rest);
        lemma_placed(arranged(rest), last);
        assert(entries =~= rest.push(last));
        rest.to_multiset_ensures();
        assert forall|title: Seq<char>| #[trigger]
            with_title(arranged(entries), title) == with_title(entries, title) by {
            assert(with_title(arranged(rest), title) == with_title(rest, title));
            lemma_with_title_push(arranged(rest), last, title);
            lemma_with_title_push(rest, last, title);
        }
    }
}

/// Every sequence of entries has a title order: [`title_order`] is the
/// sequence in title order.
pub proof fn lemma_title_order_exists(entries: Seq<EntryView>)
    ensures
        is_sorted_by_title(title_order(entries), entries),
{
    lemma_arranged(entries);
}

/// A sequence that is `entries` in title order is the title order of
/// `entries`.
pub proof fn lemma_title_order_is(sorted: Seq<EntryView>, entries: Seq<EntryView>)
    requires
        is_sorted_by_title(sorted, entries),
    ensures
        sorted == title_order(entries),
{
    lemma_sorted_by_title_unique(sorted, title_order(entries), entries);
}

/// Sorting keeps the number of entries, and every sorted entry is one of the
/// entries that were sorted.
pub proof fn lemma_sorted_by_title_same_entries(sorted: Seq<EntryView>, entries: Seq<EntryView>)
    requires
        is_sorted_by_title(sorted, entries),
    ensures
        sorted.len() == entries.len(),
        forall|entry: EntryView| sorted.contains(entry) <==> entries.contains(entry),
{
    to_multiset_len(sorted);
    to_multiset_len(entries);
    assert forall|entry: EntryView| sorted.contains(entry) <==> entries.contains(entry) by {
        to_multiset_contains(sorted, entry);
        to_multiset_contains(entries, entry);
    }
}

} // verus!
