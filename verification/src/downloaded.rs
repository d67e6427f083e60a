//! The dedup/upgrade store: the record of previously published items. An
//! item counts as already published when some stored entry has the same
//! identity and an equal or better quality score; a higher-quality version
//! of a known identity passes through, which is what allows upgrades to be
//! re-published. Recording appends and re-sorts into the canonical order so
//! the persisted list is deterministic.

use vstd::multiset::Multiset;
use vstd::prelude::*;

use crate::media::{same_identity, spec_score, WdrMedia};
use crate::text::{lemma_media_le_total, lemma_media_le_trans, media_cmp_le, media_le};

verus! {

/// Whether `media` counts as already published against the stored entries:
/// some entry shares its identity and has an equal or better score.
pub open spec fn spec_was_downloaded(list: Seq<WdrMedia>, media: WdrMedia) -> bool {
    exists|i: int|
        0 <= i < list.len() && same_identity(#[trigger] list[i].tracker_data, media.tracker_data)
            && spec_score(list[i].media_resource) >= spec_score(media.media_resource)
}

/// The canonical order of the persisted list.
pub open spec fn spec_sorted(list: Seq<WdrMedia>) -> bool {
    forall|i: int, j: int| 0 <= i < j < list.len() ==> media_le(#[trigger] list[i], #[trigger] list[j])
}

/// The persisted record of previously published items, kept in memory; the
/// caller loads it once per cycle and writes it back after each append.
pub struct Downloaded {
    pub list: Vec<WdrMedia>,
}

impl Downloaded {
    /// A store over an already-loaded list of entries.
    pub fn from_list(list: Vec<WdrMedia>) -> (r: Self)
        ensures
            r.list == list,
    {
        Self { list }
    }

    /// Decision rule: `media` is suppressed exactly when a stored entry of
    /// the same identity has an equal or better quality score.
    pub fn was_downloaded(&self, media: &WdrMedia) -> (r: bool)
        ensures
            r == spec_was_downloaded(self.list@, *media),
    {
        let new_score = media.media_resource.score();
        let n = self.list.len();
        let mut i: usize = 0;
        while i < n
            invariant
                i <= n,
                n == self.list@.len(),
                new_score == spec_score(media.media_resource),
                forall|k: int|
                    0 <= k < i ==> !(same_identity(
                        #[trigger] self.list@[k].tracker_data,
                        media.tracker_data,
                    ) && spec_score(self.list@[k].media_resource) >= spec_score(
                        media.media_resource,
                    )),
            decreases n - i,
        {
            let entry = &self.list[i];
            if entry.tracker_data.same_identity_as(&media.tracker_data) && entry
                .media_resource
                .score() >= new_score {
                proof {
                    assert(same_identity(self.list@[i as int].tracker_data, media.tracker_data));
                }
                return true;
            }
            i += 1;
        }
        false
    }

    /// Appends one published item and restores the canonical order: the new
    /// list is a permutation of the old entries plus `media`, sorted, the
    /// item itself now counts as published, and everything that counted as
    /// published before still does.
    pub fn mark_downloaded(&mut self, media: WdrMedia)
        ensures
            final (self).list@.to_multiset() == old(self).list@.to_multiset().insert(media),
            spec_sorted(final (self).list@),
            spec_was_downloaded(final (self).list@, media),
            forall|m: WdrMedia|
                spec_was_downloaded(old(self).list@, m) ==> spec_was_downloaded(
                    final (self).list@,
                    m,
                ),
    {
        proof {
            broadcast use vstd::seq_lib::group_to_multiset_ensures;
        }
        let ghost orig = self.list@;
        let mut sorted: Vec<WdrMedia> = Vec::new();
        while self.list.len() > 0
            invariant
                spec_sorted(sorted@),
                sorted@.to_multiset().add(self.list@.to_multiset()) =~= orig.to_multiset(),
            decreases self.list@.len(),
        {
            proof {
                broadcast use vstd::seq_lib::group_to_multiset_ensures;
                broadcast use vstd::multiset::group_multiset_axioms;
            }
            let ghost before = self.list@;
            let x = self.list.pop().unwrap();
            proof {
                assert(before.subrange(0, before.len() - 1).push(before.last()) =~= before);
            }
            insert_sorted(&mut sorted, x);
        }
        insert_sorted(&mut sorted, media);
        proof {
            broadcast use vstd::multiset::group_multiset_axioms;

            vstd::multiset::lemma_multiset_empty_len(self.list@.to_multiset());
            assert(self.list@.to_multiset() =~= Multiset::<WdrMedia>::empty());
            assert(sorted@.to_multiset() =~= orig.to_multiset().insert(media));
            assert(sorted@.to_multiset().count(media) > 0);
            assert(sorted@.contains(media));
            let i = choose|i: int| 0 <= i < sorted@.len() && sorted@[i] == media;
            assert(same_identity(sorted@[i].tracker_data, media.tracker_data));
            assert forall|m: WdrMedia|
                spec_was_downloaded(orig, m) implies spec_was_downloaded(sorted@, m) by {
                lemma_record_preserves_published(orig, sorted@, media, m);
            }
        }
        self.list = sorted;
    }
}

/// Inserts one item into a sorted list, keeping it sorted; the result is the
/// old contents plus the item.
fn insert_sorted(out: &mut Vec<WdrMedia>, item: WdrMedia)
    requires
        spec_sorted(old(out)@),
    ensures
        spec_sorted(final (out)@),
        final (out)@.to_multiset() == old(out)@.to_multiset().insert(item),
{
    let n = out.len();
    let mut idx: usize = 0;
    while idx < n && media_cmp_le(&out[idx], &item)
        invariant
            idx <= n,
            n == out@.len(),
            spec_sorted(out@),
            forall|k: int| 0 <= k < idx ==> media_le(#[trigger] out@[k], item),
        decreases n - idx,
    {
        idx += 1;
    }
    let ghost pre = out@;
    proof {
        if idx < pre.len() {
            lemma_media_le_total(pre[idx as int], item);
        }
    }
    out.insert(idx, item);
    proof {
        pre.insert_ensures(idx as int, item);
        let post = out@;
        assert forall|i: int, j: int| 0 <= i < j < post.len() implies media_le(post[i], post[j]) by {
            let d = idx as int;
            if j < d {
                assert(media_le(pre[i], pre[j]));
            } else if i < d && j == d {
                assert(media_le(pre[i], item));
            } else if i < d && j > d {
                assert(media_le(pre[i], pre[j - 1]));
            } else if i == d {
                if j == d + 1 {
                    assert(media_le(item, pre[j - 1]));
                } else {
                    lemma_media_le_trans(item, pre[d], pre[j - 1]);
                }
            } else {
                assert(media_le(pre[i - 1], pre[j - 1]));
            }
        }
        lemma_insert_to_multiset(pre, idx as int, item);
    }
}

/// Inserting into a sequence adds exactly that element to its multiset.
proof fn lemma_insert_to_multiset(s: Seq<WdrMedia>, i: int, a: WdrMedia)
    requires
        0 <= i <= s.len(),
    ensures
        s.insert(i, a).to_multiset() == s.to_multiset().insert(a),
{
    broadcast use vstd::seq_lib::group_to_multiset_ensures;
    broadcast use vstd::seq_lib::lemma_multiset_commutative;
    broadcast use vstd::multiset::group_multiset_axioms;

    let x = s.subrange(0, i);
    let y = s.subrange(i, s.len() as int);
    assert(s =~= x + y);
    assert(s.insert(i, a) == x.push(a) + y);
    assert((x.push(a) + y).to_multiset() =~= x.push(a).to_multiset().add(y.to_multiset()));
    assert(x.push(a).to_multiset() =~= x.to_multiset().insert(a));
    assert((x + y).to_multiset() =~= x.to_multiset().add(y.to_multiset()));
    assert(x.to_multiset().insert(a).add(y.to_multiset()) =~= x.to_multiset().add(
        y.to_multiset(),
    ).insert(a));
}

/// Recording can only suppress more, never less: an item that already
/// counted as published keeps counting as published after any append, so a
/// worse version never becomes publishable again once a better one is
/// stored.
pub proof fn lemma_record_preserves_published(
    before: Seq<WdrMedia>,
    after: Seq<WdrMedia>,
    added: WdrMedia,
    media: WdrMedia,
)
    requires
        after.to_multiset() == before.to_multiset().insert(added),
        spec_was_downloaded(before, media),
    ensures
        spec_was_downloaded(after, media),
{
    broadcast use vstd::seq_lib::group_to_multiset_ensures;
    broadcast use vstd::multiset::group_multiset_axioms;

    let i = choose|i: int|
        0 <= i < before.len() && same_identity(#[trigger] before[i].tracker_data, media.tracker_data)
            && spec_score(before[i].media_resource) >= spec_score(media.media_resource);
    let entry = before[i];
    assert(before.contains(entry));
    assert(before.to_multiset().count(entry) > 0);
    assert(after.to_multiset().count(entry) > 0);
    assert(after.contains(entry));
    let j = choose|j: int| 0 <= j < after.len() && after[j] == entry;
    assert(same_identity(after[j].tracker_data, media.tracker_data));
}

/// An item with no stored entry of matching identity is not suppressed.
pub proof fn lemma_unknown_identity_not_published(list: Seq<WdrMedia>, media: WdrMedia)
    requires
        forall|i: int|
            0 <= i < list.len() ==> !same_identity(
                #[trigger] list[i].tracker_data,
                media.tracker_data,
            ),
    ensures
        !spec_was_downloaded(list, media),
{
}

/// The upgrade rule, for two versions of one identity where `a` scores
/// strictly below `b` and the store holds no entry of that identity yet:
/// recording `a` first leaves `b` publishable; recording `b` first
/// suppresses `a`.
pub proof fn lemma_upgrade_replacement(list: Seq<WdrMedia>, a: WdrMedia, b: WdrMedia)
    requires
        same_identity(a.tracker_data, b.tracker_data),
        spec_score(a.media_resource) < spec_score(b.media_resource),
        forall|i: int|
            0 <= i < list.len() ==> !same_identity(#[trigger] list[i].tracker_data, a.tracker_data),
    ensures
        !spec_was_downloaded(list.push(a), b),
        spec_was_downloaded(list.push(b), a),
{
    let la = list.push(a);
    assert forall|i: int| 0 <= i < la.len() implies !(same_identity(
        #[trigger] la[i].tracker_data,
        b.tracker_data,
    ) && spec_score(la[i].media_resource) >= spec_score(b.media_resource)) by {
        if i < list.len() {
            assert(la[i] == list[i]);
        } else {
            assert(la[i] == a);
        }
    }
    let lb = list.push(b);
    assert(lb[list.len() as int] == b);
    assert(same_identity(lb[list.len() as int].tracker_data, a.tracker_data));
}

} // verus!
