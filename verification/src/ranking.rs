//! Ranking and paging of sequences: the stable sort by an integer key that
//! the history and the track lists are read through, and the window that a
//! page cuts out of a ranked sequence.

use vstd::prelude::*;
use vstd::seq_lib::to_multiset_insert;

verus! {

/// Where an item of key `k` goes into `ranked`: in front of the first item
/// whose key is at least `k`.
pub open spec fn insert_point<T>(ranked: Seq<T>, k: int, key: spec_fn(T) -> int) -> int
    decreases ranked.len(),
{
    if ranked.len() == 0 || key(ranked[0]) >= k {
        0
    } else {
        1 + insert_point(ranked.drop_first(), k, key)
    }
}

/// `s` ranked by ascending key; items of equal key keep the order they had
/// in `s`.
pub open spec fn rank_by<T>(s: Seq<T>, key: spec_fn(T) -> int) -> Seq<T>
    decreases s.len(),
{
    if s.len() == 0 {
        Seq::empty()
    } else {
        let rest = rank_by(s.drop_first(), key);
        rest.insert(insert_point(rest, key(s[0]), key), s[0])
    }
}

/// Keys never decrease along `s`.
pub open spec fn is_ranked<T>(s: Seq<T>, key: spec_fn(T) -> int) -> bool {
    forall|i: int, j: int| 0 <= i < j < s.len() ==> key(s[i]) <= key(s[j])
}

/// The window of at most `size` items that starts `offset` items into `s`.
pub open spec fn page_of<T>(s: Seq<T>, offset: int, size: int) -> Seq<T>
    recommends
        0 <= offset,
        0 <= size,
{
    if offset >= s.len() {
        Seq::empty()
    } else if offset + size >= s.len() {
        s.subrange(offset, s.len() as int)
    } else {
        s.subrange(offset, offset + size)
    }
}

/// The insert point lies within the sequence, behind every smaller key and,
/// in a ranked sequence, in front of every key that is not smaller.
pub proof fn lemma_insert_point<T>(ranked: Seq<T>, k: int, key: spec_fn(T) -> int)
    ensures
        0 <= insert_point(ranked, k, key) <= ranked.len(),
        forall|i: int| 0 <= i < insert_point(ranked, k, key) ==> key(ranked[i]) < k,
        insert_point(ranked, k, key) < ranked.len() ==> key(
            ranked[insert_point(ranked, k, key)],
        ) >= k,
        is_ranked(ranked, key) ==> forall|i: int|
            insert_point(ranked, k, key) <= i < ranked.len() ==> key(ranked[i]) >= k,
    decreases ranked.len(),
{
    if ranked.len() == 0 || key(ranked[0]) >= k {
    } else {
        let tail = ranked.drop_first();
        lemma_insert_point(tail, k, key);
        let p = insert_point(tail, k, key);
        assert forall|i: int| 0 <= i < p + 1 implies key(ranked[i]) < k by {
            if i > 0 {
                assert(ranked[i] == tail[i - 1]);
            }
        }
        if p + 1 < ranked.len() {
            assert(ranked[p + 1] == tail[p]);
        }
        if is_ranked(ranked, key) {
            assert forall|i: int, j: int| 0 <= i < j < tail.len() implies key(tail[i]) <= key(
                tail[j],
            ) by {
                assert(tail[i] == ranked[i + 1]);
                assert(tail[j] == ranked[j + 1]);
            }
            assert forall|i: int| p + 1 <= i < ranked.len() implies key(ranked[i]) >= k by {
                assert(ranked[i] == tail[i - 1]);
            }
        }
    }
}

/// The insert point is the one place that has only smaller keys in front of
/// it and no smaller key at it.
pub proof fn lemma_insert_point_at<T>(ranked: Seq<T>, k: int, key: spec_fn(T) -> int, at: int)
    requires
        0 <= at <= ranked.len(),
        forall|i: int| 0 <= i < at ==> key(ranked[i]) < k,
        at < ranked.len() ==> key(ranked[at]) >= k,
    ensures
        insert_point(ranked, k, key) == at,
    decreases ranked.len(),
{
    if at > 0 {
        let tail = ranked.drop_first();
        assert forall|i: int| 0 <= i < at - 1 implies key(tail[i]) < k by {
            assert(tail[i] == ranked[i + 1]);
        }
        if at - 1 < tail.len() {
            assert(tail[at - 1] == ranked[at]);
        }
        assert(key(ranked[0]) < k);
        lemma_insert_point_at(tail, k, key, at - 1);
    }
}

/// Ranking keeps every item, each as often as it occurred, and leaves the
/// keys in ascending order.
pub proof fn lemma_rank_by<T>(s: Seq<T>, key: spec_fn(T) -> int)
    ensures
        rank_by(s, key).len() == s.len(),
        rank_by(s, key).to_multiset() == s.to_multiset(),
        is_ranked(rank_by(s, key), key),
    decreases s.len(),
{
    if s.len() == 0 {
        assert(rank_by(s, key) =~= s);
    } else {
        let rest = rank_by(s.drop_first(), key);
        lemma_rank_by(s.drop_first(), key);
        lemma_insert_point(rest, key(s[0]), key);
        let p = insert_point(rest, key(s[0]), key);
        let out = rest.insert(p, s[0]);
        to_multiset_insert(rest, p, s[0]);
        assert(s =~= s.drop_first().insert(0, s[0]));
        to_multiset_insert(s.drop_first(), 0, s[0]);
        assert forall|i: int, j: int| 0 <= i < j < out.len() implies key(out[i]) <= key(
            out[j],
        ) by {
            if i < p && j > p {
                assert(out[i] == rest[i]);
                assert(out[j] == rest[j - 1]);
            }
        }
    }
}

/// A filter that no item passes lets nothing through.
proof fn lemma_filter_none<T>(s: Seq<T>, pass: spec_fn(T) -> bool)
    requires
        forall|i: int| 0 <= i < s.len() ==> !pass(#[trigger] s[i]),
    ensures
        s.filter(pass) == Seq::<T>::empty(),
    decreases s.len(),
{
    reveal(Seq::filter);
    if s.len() > 0 {
        let front = s.drop_last();
        assert forall|i: int| 0 <= i < front.len() implies !pass(#[trigger] front[i]) by {
            assert(front[i] == s[i]);
        }
        lemma_filter_none(front, pass);
        assert(!pass(s[s.len() - 1]));
    } else {
        assert(s.filter(pass) =~= Seq::<T>::empty());
    }
}

/// Ranking is stable: the items of any one key stand in the ranked
/// sequence as they stood in `s`.
pub proof fn lemma_rank_by_stable<T>(s: Seq<T>, key: spec_fn(T) -> int, k: int)
    ensures
        rank_by(s, key).filter(|x: T| key(x) == k) == s.filter(|x: T| key(x) == k),
    decreases s.len(),
{
    let same = |x: T| key(x) == k;
    if s.len() == 0 {
        assert(rank_by(s, key) =~= s);
    } else {
        let tail = s.drop_first();
        let rest = rank_by(tail, key);
        lemma_rank_by_stable(tail, key, k);
        lemma_rank_by(tail, key);
        lemma_insert_point(rest, key(s[0]), key);
        let p = insert_point(rest, key(s[0]), key);
        let before = rest.subrange(0, p);
        let after = rest.subrange(p, rest.len() as int);
        assert(rest =~= before + after);
        assert(rest.insert(p, s[0]) =~= (before + seq![s[0]]) + after);
        assert(s =~= seq![s[0]] + tail);
        Seq::filter_distributes_over_add(before, after, same);
        Seq::filter_distributes_over_add(before + seq![s[0]], after, same);
        Seq::filter_distributes_over_add(before, seq![s[0]], same);
        Seq::filter_distributes_over_add(seq![s[0]], tail, same);
        assert(rest.filter(same) == tail.filter(same));
        if key(s[0]) == k {
            assert forall|i: int| 0 <= i < before.len() implies !same(#[trigger] before[i]) by {
                assert(before[i] == rest[i]);
            }
            lemma_filter_none(before, same);
            assert(before.filter(same) + seq![s[0]].filter(same) =~= seq![s[0]].filter(same));
            assert(before.filter(same) + after.filter(same) =~= after.filter(same));
        } else {
            assert forall|i: int| 0 <= i < 1 implies !same(#[trigger] seq![s[0]][i]) by {}
            lemma_filter_none(seq![s[0]], same);
            assert(before.filter(same) + Seq::<T>::empty() =~= before.filter(same));
            assert(Seq::<T>::empty() + tail.filter(same) =~= tail.filter(same));
        }
    }
}

/// Ranking a sequence that is ranked already changes nothing.
pub proof fn lemma_rank_by_ranked<T>(s: Seq<T>, key: spec_fn(T) -> int)
    requires
        is_ranked(s, key),
    ensures
        rank_by(s, key) == s,
    decreases s.len(),
{
    if s.len() == 0 {
        assert(rank_by(s, key) =~= s);
    } else {
        let tail = s.drop_first();
        assert forall|i: int, j: int| 0 <= i < j < tail.len() implies key(tail[i]) <= key(
            tail[j],
        ) by {
            assert(tail[i] == s[i + 1]);
            assert(tail[j] == s[j + 1]);
        }
        lemma_rank_by_ranked(tail, key);
        if tail.len() > 0 {
            assert(tail[0] == s[1]);
        }
        assert(insert_point(tail, key(s[0]), key) == 0);
        assert(tail.insert(0, s[0]) =~= s);
    }
}

/// No two items of `s` carry the same tag.
pub open spec fn distinct_by<T, B>(s: Seq<T>, tag: spec_fn(T) -> B) -> bool {
    forall|i: int, j: int| 0 <= i < j < s.len() ==> tag(s[i]) != tag(s[j])
}

/// Ranking items with distinct tags leaves the tags distinct.
pub proof fn lemma_rank_by_distinct<T, B>(s: Seq<T>, key: spec_fn(T) -> int, tag: spec_fn(T) -> B)
    requires
        distinct_by(s, tag),
    ensures
        distinct_by(rank_by(s, key), tag),
    decreases s.len(),
{
    if s.len() > 0 {
        let tail = s.drop_first();
        let rest = rank_by(tail, key);
        assert forall|i: int, j: int| 0 <= i < j < tail.len() implies tag(tail[i]) != tag(
            tail[j],
        ) by {
            assert(tail[i] == s[i + 1]);
            assert(tail[j] == s[j + 1]);
        }
        lemma_rank_by_distinct(tail, key, tag);
        lemma_rank_by(tail, key);
        lemma_insert_point(rest, key(s[0]), key);
        let p = insert_point(rest, key(s[0]), key);
        let out = rest.insert(p, s[0]);
        assert forall|k: int| 0 <= k < rest.len() implies tag(rest[k]) != tag(s[0]) by {
            rest.to_multiset_ensures();
            tail.to_multiset_ensures();
            assert(rest.to_multiset().count(rest[k]) > 0);
            assert(tail.contains(rest[k]));
            let m = choose|m: int| 0 <= m < tail.len() && tail[m] == rest[k];
            assert(tail[m] == s[m + 1]);
        }
        assert forall|i: int, j: int| 0 <= i < j < out.len() implies tag(out[i]) != tag(
            out[j],
        ) by {
            if i == p {
                assert(out[j] == rest[j - 1]);
            } else if j == p {
                assert(out[i] == rest[i]);
            } else {
                let a = if i < p { i } else { i - 1 };
                let b = if j < p { j } else { j - 1 };
                assert(out[i] == rest[a]);
                assert(out[j] == rest[b]);
            }
        }
    }
}

/// Keys strictly increase along `s`.
pub open spec fn is_climbing<T>(s: Seq<T>, key: spec_fn(T) -> int) -> bool {
    forall|i: int, j: int| 0 <= i < j < s.len() ==> key(s[i]) < key(s[j])
}

/// Filtering keeps only items of `s` that pass, and keeps distinct tags
/// distinct and climbing keys climbing.
pub proof fn lemma_filter_keeps<T, B>(
    s: Seq<T>,
    keep: spec_fn(T) -> bool,
    key: spec_fn(T) -> int,
    tag: spec_fn(T) -> B,
)
    ensures
        forall|i: int|
            0 <= i < s.filter(keep).len() ==> keep(#[trigger] s.filter(keep)[i]) && s.contains(
                s.filter(keep)[i],
            ),
        is_climbing(s, key) ==> is_climbing(s.filter(keep), key),
        distinct_by(s, tag) ==> distinct_by(s.filter(keep), tag),
    decreases s.len(),
{
    reveal(Seq::filter);
    if s.len() > 0 {
        let front = s.drop_last();
        let kept = front.filter(keep);
        let out = s.filter(keep);
        lemma_filter_keeps(front, keep, key, tag);
        assert forall|i: int| 0 <= i < out.len() implies keep(#[trigger] out[i]) && s.contains(
            out[i],
        ) by {
            if i < kept.len() {
                assert(out[i] == kept[i]);
                assert(front.contains(kept[i]));
                let m = choose|m: int| 0 <= m < front.len() && front[m] == kept[i];
                assert(s[m] == out[i]);
            } else {
                assert(out[i] == s[s.len() - 1]);
            }
        }
        if is_climbing(s, key) {
            assert forall|i: int, j: int| 0 <= i < j < front.len() implies key(front[i]) < key(
                front[j],
            ) by {
                assert(front[i] == s[i] && front[j] == s[j]);
            }
            assert forall|i: int, j: int| 0 <= i < j < out.len() implies key(out[i]) < key(
                out[j],
            ) by {
                assert(out[i] == kept[i]);
                if j < kept.len() {
                    assert(out[j] == kept[j]);
                } else {
                    assert(front.contains(kept[i]));
                    let m = choose|m: int| 0 <= m < front.len() && front[m] == kept[i];
                    assert(s[m] == out[i] && out[j] == s[s.len() - 1]);
                }
            }
        }
        if distinct_by(s, tag) {
            assert forall|i: int, j: int| 0 <= i < j < front.len() implies tag(front[i]) != tag(
                front[j],
            ) by {
                assert(front[i] == s[i] && front[j] == s[j]);
            }
            assert forall|i: int, j: int| 0 <= i < j < out.len() implies tag(out[i]) != tag(
                out[j],
            ) by {
                assert(out[i] == kept[i]);
                if j < kept.len() {
                    assert(out[j] == kept[j]);
                } else {
                    assert(front.contains(kept[i]));
                    let m = choose|m: int| 0 <= m < front.len() && front[m] == kept[i];
                    assert(s[m] == out[i] && out[j] == s[s.len() - 1]);
                }
            }
        }
    }
}

/// Among items of distinct tags, dropping those of one tag drops one item
/// if the tag occurs and none if it does not.
pub proof fn lemma_filter_one_out<T, B>(
    s: Seq<T>,
    keep: spec_fn(T) -> bool,
    tag: spec_fn(T) -> B,
    gone: B,
)
    requires
        distinct_by(s, tag),
        forall|x: T| #[trigger] keep(x) <==> tag(x) != gone,
    ensures
        s.filter(keep).len() == if exists|i: int|
            0 <= i < s.len() && tag(s[i]) == gone {
            s.len() - 1
        } else {
            s.len() as int
        },
    decreases s.len(),
{
    reveal(Seq::filter);
    if s.len() > 0 {
        let front = s.drop_last();
        assert forall|i: int, j: int| 0 <= i < j < front.len() implies tag(front[i]) != tag(
            front[j],
        ) by {
            assert(front[i] == s[i] && front[j] == s[j]);
        }
        lemma_filter_one_out(front, keep, tag, gone);
        if tag(s.last()) == gone {
            assert forall|i: int| 0 <= i < front.len() implies tag(front[i]) != gone by {
                assert(front[i] == s[i]);
            }
            assert(tag(s[s.len() - 1]) == gone);
        } else {
            if exists|i: int| 0 <= i < s.len() && tag(s[i]) == gone {
                let i = choose|i: int| 0 <= i < s.len() && tag(s[i]) == gone;
                assert(front[i] == s[i]);
            } else {
                assert forall|i: int| 0 <= i < front.len() implies tag(front[i]) != gone by {
                    assert(front[i] == s[i]);
                }
            }
        }
    }
}

/// Where `f` finds something in every item of `s`, `filter_map` passes
/// nothing over: it is a plain map.
pub proof fn lemma_filter_map_total<A, B>(s: Seq<A>, f: spec_fn(A) -> Option<B>)
    requires
        forall|i: int| 0 <= i < s.len() ==> f(#[trigger] s[i]) is Some,
    ensures
        s.filter_map(f).len() == s.len(),
        forall|i: int| 0 <= i < s.len() ==> #[trigger] s.filter_map(f)[i] == f(s[i]).unwrap(),
    decreases s.len(),
{
    if s.len() > 0 {
        let front = s.drop_last();
        assert forall|i: int| 0 <= i < front.len() implies f(#[trigger] front[i]) is Some by {
            assert(front[i] == s[i]);
        }
        lemma_filter_map_total(front, f);
        assert(f(s[s.len() - 1]) is Some);
        assert forall|i: int| 0 <= i < s.len() implies #[trigger] s.filter_map(f)[i] == f(
            s[i],
        ).unwrap() by {
            if i < front.len() {
                assert(front[i] == s[i]);
            }
        }
    }
}

/// What `filter_map` lets through comes from the items of `s` in their
/// order: of two results, the earlier was found in an earlier item.
pub proof fn lemma_filter_map_sources<A, B>(s: Seq<A>, f: spec_fn(A) -> Option<B>, a: int, b: int)
    requires
        0 <= a < b < s.filter_map(f).len(),
    ensures
        exists|i: int, j: int|
            0 <= i < j < s.len() && #[trigger] f(s[i]) == Some(s.filter_map(f)[a]) && #[trigger] f(
                s[j],
            ) == Some(s.filter_map(f)[b]),
    decreases s.len(),
{
    let out = s.filter_map(f);
    let front = s.drop_last();
    let last = s.len() - 1;
    if f(s.last()) is Some && b == out.len() - 1 {
        lemma_filter_map_source(front, f, a);
        let i = choose|i: int| 0 <= i < front.len() && #[trigger] f(front[i]) == Some(
            front.filter_map(f)[a],
        );
        assert(front[i] == s[i]);
        assert(f(s[i]) == Some(out[a]) && f(s[last]) == Some(out[b]));
    } else {
        lemma_filter_map_sources(front, f, a, b);
        let (i, j) = choose|i: int, j: int|
            0 <= i < j < front.len() && #[trigger] f(front[i]) == Some(front.filter_map(f)[a])
                && #[trigger] f(front[j]) == Some(front.filter_map(f)[b]);
        assert(front[i] == s[i] && front[j] == s[j]);
        assert(f(s[i]) == Some(out[a]) && f(s[j]) == Some(out[b]));
    }
}

/// What `f` finds in an item of `s`, `filter_map` lets through.
pub proof fn lemma_filter_map_keeps<A, B>(s: Seq<A>, f: spec_fn(A) -> Option<B>, i: int)
    requires
        0 <= i < s.len(),
        f(s[i]) is Some,
    ensures
        s.filter_map(f).contains(f(s[i]).unwrap()),
    decreases s.len(),
{
    let front = s.drop_last();
    let out = s.filter_map(f);
    if i == s.len() - 1 {
        assert(out[out.len() - 1] == f(s[i]).unwrap());
    } else {
        lemma_filter_map_keeps(front, f, i);
        assert(front[i] == s[i]);
        let found = f(s[i]).unwrap();
        let k = choose|k: int| 0 <= k < front.filter_map(f).len() && front.filter_map(f)[k] == found;
        assert(out[k] == found);
    }
}

/// What `filter_map` lets through was found in an item of `s`.
pub proof fn lemma_filter_map_source<A, B>(s: Seq<A>, f: spec_fn(A) -> Option<B>, a: int)
    requires
        0 <= a < s.filter_map(f).len(),
    ensures
        exists|i: int| 0 <= i < s.len() && #[trigger] f(s[i]) == Some(s.filter_map(f)[a]),
    decreases s.len(),
{
    let out = s.filter_map(f);
    let front = s.drop_last();
    let last = s.len() - 1;
    if f(s.last()) is Some && a == out.len() - 1 {
        assert(f(s[last]) == Some(out[a]));
    } else {
        lemma_filter_map_source(front, f, a);
        let i = choose|i: int| 0 <= i < front.len() && #[trigger] f(front[i]) == Some(
            front.filter_map(f)[a],
        );
        assert(front[i] == s[i]);
        assert(f(s[i]) == Some(out[a]));
    }
}

/// Cuts the page that starts `offset` items into `items` and holds at most
/// `size` of them.
pub fn take_page<T>(items: Vec<T>, offset: usize, size: usize) -> (page: Vec<T>)
    ensures
        page@ == page_of(items@, offset as int, size as int),
{
    let mut all = items;
    if offset >= all.len() {
        return Vec::new();
    }
    if size < all.len() - offset {
        all.truncate(offset + size);
    }
    let page = all.split_off(offset);
    page
}

/// Two consecutive pages of one size do not overlap, and laid end to end
/// they are the first two pages' worth of the sequence.
pub proof fn lemma_pages_adjoin<T>(s: Seq<T>, size: int)
    requires
        0 <= size,
        s.len() == 2 * size,
    ensures
        page_of(s, 0, size).len() == size,
        page_of(s, size, size).len() == size,
        page_of(s, 0, size) + page_of(s, size, size) == s,
        forall|i: int| 0 <= i < size ==> page_of(s, 0, size)[i] == s[i],
        forall|i: int| 0 <= i < size ==> page_of(s, size, size)[i] == s[size + i],
{
    if size > 0 {
        assert(page_of(s, 0, size) + page_of(s, size, size) =~= s);
    } else {
        assert(page_of(s, 0, size) + page_of(s, size, size) =~= s);
    }
}

} // verus!
