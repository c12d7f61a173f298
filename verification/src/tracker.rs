//! The notifications that are currently known, and which of them match.
//!
//! A tracker has one owner, which feeds it the events of the stream. What it
//! answers is recomputed from what it holds each time it is asked.

use crate::filter::{
    all_compile, effective_patterns, first_refused, pattern_matches, FilterError, FilterSet,
};
use std::collections::HashMap;
use vstd::prelude::*;
use vstd::std_specs::iter::IteratorSpec;

verus! {

/// A notification: the texts that the filters are held against.
#[derive(Clone, Debug)]
pub struct Notification {
    pub app_name: String,
    pub summary: String,
    pub body: String,
}

/// The mathematical value of a [`Notification`].
pub struct NotificationView {
    pub app_name: Seq<char>,
    pub summary: Seq<char>,
    pub body: Seq<char>,
}

impl View for Notification {
    type V = NotificationView;

    open spec fn view(&self) -> NotificationView {
        NotificationView { app_name: self.app_name@, summary: self.summary@, body: self.body@ }
    }
}

/// Whether `pattern` matches in one of the three texts of `item`.
pub open spec fn pattern_hits(pattern: Seq<char>, item: NotificationView) -> bool {
    ||| pattern_matches(pattern, item.app_name)
    ||| pattern_matches(pattern, item.summary)
    ||| pattern_matches(pattern, item.body)
}

/// Whether `item` matches: at least one pattern matches in at least one of
/// its texts.
pub open spec fn item_matches(patterns: Seq<Seq<char>>, item: NotificationView) -> bool {
    exists|i: int| 0 <= i < patterns.len() && pattern_hits(#[trigger] patterns[i], item)
}

/// The identifiers of the items in `items` that match.
pub open spec fn matching_ids(
    items: Map<u32, NotificationView>,
    patterns: Seq<Seq<char>>,
) -> Set<u32> {
    items.dom().filter(|id: u32| item_matches(patterns, items[id]))
}

/// A change to the set of tracked items.
pub enum TrackerOp {
    /// Insert the item under the identifier, in place of any item held there.
    Upsert { id: u32, item: NotificationView },
    /// Remove the item held under the identifier, if there is one.
    Remove { id: u32 },
    /// Remove every item.
    Clear,
}

/// The items after `op` was applied to `items`.
pub open spec fn apply(items: Map<u32, NotificationView>, op: TrackerOp) -> Map<
    u32,
    NotificationView,
> {
    match op {
        TrackerOp::Upsert { id, item } => items.insert(id, item),
        TrackerOp::Remove { id } => items.remove(id),
        TrackerOp::Clear => Map::empty(),
    }
}

/// The items after `ops` were applied to `items`, first to last.
pub open spec fn replay(items: Map<u32, NotificationView>, ops: Seq<TrackerOp>) -> Map<
    u32,
    NotificationView,
>
    decreases ops.len(),
{
    if ops.len() == 0 {
        items
    } else {
        apply(replay(items, ops.drop_last()), ops.last())
    }
}

/// The changes that reconcile a tracker with `snapshot`, a full list of the
/// items that exist: a clear, then one upsert for each item, in order.
pub open spec fn reconciliation(snapshot: Seq<(u32, NotificationView)>) -> Seq<TrackerOp> {
    seq![TrackerOp::Clear] + snapshot.map_values(
        |entry: (u32, NotificationView)| TrackerOp::Upsert { id: entry.0, item: entry.1 },
    )
}

/// The items that `snapshot` lists, by identifier; where an identifier comes
/// twice, the later entry stands.
pub open spec fn snapshot_items(snapshot: Seq<(u32, NotificationView)>) -> Map<
    u32,
    NotificationView,
>
    decreases snapshot.len(),
{
    if snapshot.len() == 0 {
        Map::empty()
    } else {
        snapshot_items(snapshot.drop_last()).insert(snapshot.last().0, snapshot.last().1)
    }
}

/// Whether `op` puts an item under `id`.
pub open spec fn adds(op: TrackerOp, id: u32) -> bool {
    op matches TrackerOp::Upsert { id: at, .. } && at == id
}

/// Whether `op` takes away what is held under `id`.
pub open spec fn drops(op: TrackerOp, id: u32) -> bool {
    op is Clear || op == (TrackerOp::Remove { id })
}

/// Whether the change at position `at` of `ops` adds an item under `id`
/// that no later change of `ops` replaces or takes away.
pub open spec fn stands(ops: Seq<TrackerOp>, id: u32, at: int) -> bool {
    &&& 0 <= at < ops.len()
    &&& adds(ops[at], id)
    &&& forall|later: int|
        at < later < ops.len() ==> !adds(#[trigger] ops[later], id) && !drops(ops[later], id)
}

/// The mathematical value of a snapshot held in a vector.
pub open spec fn snapshot_view(snapshot: Seq<(u32, Notification)>) -> Seq<(u32, NotificationView)> {
    snapshot.map_values(|entry: (u32, Notification)| (entry.0, entry.1@))
}

/// The set of tracked notifications together with the filters.
pub struct NotificationTracker {
    notifications: HashMap<u32, Notification>,
    filters: FilterSet,
}

impl NotificationTracker {
    /// The tracked items, by identifier.
    pub closed spec fn items(&self) -> Map<u32, NotificationView> {
        Map::new(
            |id: u32| self.notifications@.contains_key(id),
            |id: u32| self.notifications@[id]@,
        )
    }

    /// The filter patterns as they were compiled, in order.
    pub closed spec fn patterns(&self) -> Seq<Seq<char>> {
        self.filters@
    }

    /// The number of tracked items that match.
    pub open spec fn match_count(&self) -> nat {
        matching_ids(self.items(), self.patterns()).len()
    }

    /// Whether at least one tracked item matches.
    pub open spec fn has_match(&self) -> bool {
        exists|id: u32| #[trigger] matching_ids(self.items(), self.patterns()).contains(id)
    }

    /// The tracked items are finitely many, none matches if and only if the
    /// count of matching items is zero, and that count is at most the number
    /// of tracked items.
    pub proof fn lemma_counts(&self)
        ensures
            self.items().dom().finite(),
            matching_ids(self.items(), self.patterns()).finite(),
            self.has_match() <==> self.match_count() > 0,
            self.match_count() <= self.items().dom().len(),
    {
        assert(self.items().dom() =~= self.notifications@.dom());
        let matching = matching_ids(self.items(), self.patterns());
        self.items().dom().lemma_len_filter(|id: u32| item_matches(self.patterns(), self.items()[id]));
        if matching.len() > 0 {
            assert(matching.contains(matching.choose()));
        }
    }

    /// A tracker without items, with the filters compiled from
    /// `filter_patterns`. Succeeds if every pattern can be compiled, and
    /// fails at the first that cannot.
    pub fn new(filter_patterns: Vec<String>, case_insensitive: bool) -> (r: Result<
        Self,
        FilterError,
    >)
        ensures
            match r {
                Ok(tracker) => {
                    &&& tracker.items() == Map::<u32, NotificationView>::empty()
                    &&& tracker.patterns() == effective_patterns(filter_patterns@, case_insensitive)
                    &&& all_compile(tracker.patterns())
                },
                Err(e) => first_refused(
                    effective_patterns(filter_patterns@, case_insensitive),
                    e.index as int,
                ),
            },
    {
        match FilterSet::new(filter_patterns, case_insensitive) {
            Ok(filters) => {
                let tracker = NotificationTracker { notifications: HashMap::new(), filters };
                assert(tracker.items() =~= Map::<u32, NotificationView>::empty());
                Ok(tracker)
            },
            Err(e) => Err(e),
        }
    }

    /// Whether `notification` matches the filters. The patterns are tried in
    /// order, each against the application name, the summary and the body,
    /// up to the first that matches.
    pub fn matches_filter(&self, notification: &Notification) -> (matched: bool)
        ensures
            matched == item_matches(self.patterns(), notification@),
    {
        let mut i: usize = 0;
        while i < self.filters.len()
            invariant
                i <= self.filters@.len(),
                forall|j: int| 0 <= j < i ==> !pattern_hits(#[trigger] self.filters@[j], notification@),
            decreases self.filters@.len() - i,
        {
            if self.filters.is_match_at(i, notification.app_name.as_str())
                || self.filters.is_match_at(i, notification.summary.as_str())
                || self.filters.is_match_at(i, notification.body.as_str()) {
                return true;
            }
            i += 1;
        }
        false
    }

    /// Inserts the notification under `id`, in place of any held there, and
    /// tells whether it matches.
    pub fn add_notification(
        &mut self,
        id: u32,
        app_name: String,
        summary: String,
        body: String,
    ) -> (matched: bool)
        ensures
            final(self).patterns() == old(self).patterns(),
            final(self).items() == apply(
                old(self).items(),
                TrackerOp::Upsert {
                    id,
                    item: NotificationView { app_name: app_name@, summary: summary@, body: body@ },
                },
            ),
            matched == item_matches(
                old(self).patterns(),
                NotificationView { app_name: app_name@, summary: summary@, body: body@ },
            ),
    {
        let notification = Notification { app_name, summary, body };
        let matched = self.matches_filter(&notification);
        self.notifications.insert(id, notification);
        assert(self.items() =~= old(self).items().insert(id, notification@));
        matched
    }

    /// Removes the notification held under `id` and tells whether it matched;
    /// `false` where none is held there.
    pub fn remove_notification(&mut self, id: u32) -> (was_matching: bool)
        ensures
            final(self).patterns() == old(self).patterns(),
            final(self).items() == apply(old(self).items(), TrackerOp::Remove { id }),
            was_matching == (old(self).items().contains_key(id) && item_matches(
                old(self).patterns(),
                old(self).items()[id],
            )),
    {
        let removed = self.notifications.remove(&id);
        assert(self.items() =~= old(self).items().remove(id));
        match removed {
            Some(notification) => self.matches_filter(&notification),
            None => false,
        }
    }

    /// Removes every notification.
    pub fn clear(&mut self)
        ensures
            final(self).patterns() == old(self).patterns(),
            final(self).items() == apply(old(self).items(), TrackerOp::Clear),
            final(self).match_count() == 0,
            !final(self).has_match(),
    {
        self.notifications.clear();
        assert(self.items() =~= Map::<u32, NotificationView>::empty());
        assert(matching_ids(self.items(), self.patterns()) =~= Set::<u32>::empty());
    }

    /// Replaces what is tracked by the items of `snapshot`: a clear, then one
    /// insertion for each item, in order.
    pub fn reconcile(&mut self, snapshot: Vec<(u32, Notification)>)
        ensures
            final(self).patterns() == old(self).patterns(),
            final(self).items() == replay(
                old(self).items(),
                reconciliation(snapshot_view(snapshot@)),
            ),
            final(self).items() == snapshot_items(snapshot_view(snapshot@)),
    {
        let ghost listed = snapshot_view(snapshot@);
        proof {
            lemma_reconciliation_result(old(self).items(), listed);
        }
        self.clear();
        let mut i: usize = 0;
        while i < snapshot.len()
            invariant
                i <= snapshot@.len(),
                listed == snapshot_view(snapshot@),
                self.patterns() == old(self).patterns(),
                self.items() == snapshot_items(listed.take(i as int)),
            decreases snapshot@.len() - i,
        {
            let id = snapshot[i].0;
            let item = &snapshot[i].1;
            proof {
                let upto = listed.take(i + 1);
                assert(upto.drop_last() =~= listed.take(i as int));
                assert(upto.last() == (id, item@));
            }
            self.add_notification(
                id,
                item.app_name.clone(),
                item.summary.clone(),
                item.body.clone(),
            );
            i += 1;
        }
        assert(listed.take(snapshot@.len() as int) =~= listed);
    }

    /// The number of tracked notifications.
    pub fn len(&self) -> (n: usize)
        ensures
            n == self.items().dom().len(),
    {
        assert(self.items().dom() =~= self.notifications@.dom());
        self.notifications.len()
    }

    /// Whether at least one tracked notification matches.
    pub fn has_matching_notifications(&self) -> (any: bool)
        ensures
            any == self.has_match(),
            any == (self.match_count() > 0),
    {
        proof {
            self.lemma_counts();
        }
        self.count_matching_notifications() > 0
    }

    /// The number of tracked notifications that match.
    pub fn count_matching_notifications(&self) -> (count: usize)
        ensures
            count == self.match_count(),
    {
        let ghost items = self.items();
        let ghost patterns = self.patterns();
        let ghost pred = |id: u32| item_matches(patterns, items[id]);
        let ghost keys = self.notifications.keys().remaining().unref();
        let ghost mut done: int = 0;
        let mut count: usize = 0;
        proof {
            assert(items.dom() =~= self.notifications@.dom());
            assert(keys.len() == self.notifications.len());
            assert(keys.take(0).to_set().filter(pred) =~= Set::<u32>::empty());
            assert(keys.no_duplicates()) by {
                let refs = self.notifications.keys().remaining();
                assert forall|i: int, j: int|
                    0 <= i < keys.len() && 0 <= j < keys.len() && i != j implies keys[i]
                    != keys[j] by {
                    assert(refs[i] != refs[j]);
                }
            }
        }
        for id in it: self.notifications.keys()
            invariant
                items == self.items(),
                patterns == self.patterns(),
                pred == (|id: u32| item_matches(patterns, items[id])),
                it.seq().unref() == keys,
                keys.to_set() == items.dom(),
                keys.no_duplicates(),
                done == it.index(),
                count <= done <= keys.len() <= usize::MAX,
                count == keys.take(done).to_set().filter(pred).len(),
        {
            proof {
                lemma_filter_step(keys, done, pred);
                assert(keys.to_set().contains(keys[done]));
            }
            match self.notifications.get(id) {
                Some(notification) => {
                    assert(items[*id] == notification@);
                    if self.matches_filter(notification) {
                        count += 1;
                    }
                },
                None => {
                    assert(false);
                },
            }
            proof {
                done = done + 1;
            }
        }
        assert(keys.take(done) =~= keys);
        count
    }
}

/// After any sequence of changes to an empty tracker, an identifier is
/// tracked exactly when some change added an item under it that no later
/// change replaced or took away, and it is tracked with that item.
pub proof fn lemma_held_after_replay(ops: Seq<TrackerOp>, id: u32)
    ensures
        replay(Map::empty(), ops).contains_key(id) <==> exists|at: int| stands(ops, id, at),
        forall|at: int|
            stands(ops, id, at) ==> replay(Map::empty(), ops)[id] == (#[trigger] ops[at])->item,
    decreases ops.len(),
{
    let held = replay(Map::empty(), ops);
    if ops.len() > 0 {
        let earlier = ops.drop_last();
        let last = ops.len() - 1;
        lemma_held_after_replay(earlier, id);
        assert forall|at: int| stands(ops, id, at) implies held.contains_key(id) && held[id]
            == ops[at]->item by {
            if at < last {
                assert(!adds(ops[last], id) && !drops(ops[last], id));
                assert(stands(earlier, id, at)) by {
                    assert forall|later: int| at < later < earlier.len() implies !adds(
                        #[trigger] earlier[later],
                        id,
                    ) && !drops(earlier[later], id) by {
                        assert(earlier[later] == ops[later]);
                    }
                }
                assert(earlier[at] == ops[at]);
            }
        }
        if held.contains_key(id) {
            if adds(ops[last], id) {
                assert(stands(ops, id, last));
            } else {
                assert(!drops(ops[last], id));
                let at = choose|at: int| stands(earlier, id, at);
                assert(stands(ops, id, at)) by {
                    assert(earlier[at] == ops[at]);
                    assert forall|later: int| at < later < ops.len() implies !adds(
                        #[trigger] ops[later],
                        id,
                    ) && !drops(ops[later], id) by {
                        if later < last {
                            assert(earlier[later] == ops[later]);
                        }
                    }
                }
            }
        }
    }
}

/// After any sequence of changes to an empty tracker, the matching items are
/// exactly those that a change added, that no later change replaced or took
/// away, and that match; the count of matching items is their number.
pub proof fn lemma_matching_after_replay(ops: Seq<TrackerOp>, patterns: Seq<Seq<char>>)
    ensures
        matching_ids(replay(Map::empty(), ops), patterns) == Set::new(
            |id: u32|
                exists|at: int| stands(ops, id, at) && item_matches(patterns, ops[at]->item),
        ),
{
    let held = replay(Map::empty(), ops);
    let expected = Set::new(
        |id: u32| exists|at: int| stands(ops, id, at) && item_matches(patterns, ops[at]->item),
    );
    assert forall|id: u32| matching_ids(held, patterns).contains(id) <==> expected.contains(
        id,
    ) by {
        lemma_held_after_replay(ops, id);
        if matching_ids(held, patterns).contains(id) {
            let at = choose|at: int| stands(ops, id, at);
            assert(stands(ops, id, at) && item_matches(patterns, ops[at]->item));
        }
    }
    assert(matching_ids(held, patterns) =~= expected);
}

/// A reconciliation leaves exactly the items of the snapshot, whatever was
/// tracked before.
pub proof fn lemma_reconciliation_result(
    items: Map<u32, NotificationView>,
    snapshot: Seq<(u32, NotificationView)>,
)
    ensures
        replay(items, reconciliation(snapshot)) == snapshot_items(snapshot),
    decreases snapshot.len(),
{
    let ops = reconciliation(snapshot);
    if snapshot.len() == 0 {
        assert(ops.drop_last() =~= Seq::<TrackerOp>::empty());
    } else {
        assert(ops.drop_last() =~= reconciliation(snapshot.drop_last()));
        lemma_reconciliation_result(items, snapshot.drop_last());
    }
}

/// Reconciling a tracker that already holds exactly the items of the
/// snapshot changes nothing: the same items are held, and the same of them
/// match.
pub proof fn lemma_reconciliation_idempotent(
    items: Map<u32, NotificationView>,
    snapshot: Seq<(u32, NotificationView)>,
    patterns: Seq<Seq<char>>,
)
    requires
        items == snapshot_items(snapshot),
    ensures
        replay(items, reconciliation(snapshot)) == items,
        matching_ids(replay(items, reconciliation(snapshot)), patterns).len() == matching_ids(
            items,
            patterns,
        ).len(),
{
    lemma_reconciliation_result(items, snapshot);
}

/// What one more element adds to the filtered set of a prefix of `keys`.
proof fn lemma_filter_step(keys: Seq<u32>, at: int, pred: spec_fn(u32) -> bool)
    requires
        0 <= at < keys.len(),
        keys.no_duplicates(),
    ensures
        keys.take(at).to_set().filter(pred).finite(),
        !keys.take(at).to_set().filter(pred).contains(keys[at]),
        keys.take(at + 1).to_set().filter(pred) == if pred(keys[at]) {
            keys.take(at).to_set().filter(pred).insert(keys[at])
        } else {
            keys.take(at).to_set().filter(pred)
        },
{
    let shorter = keys.take(at);
    let before = shorter.to_set();
    let after = keys.take(at + 1).to_set();
    vstd::seq_lib::seq_to_set_is_finite(shorter);
    before.lemma_len_filter(pred);
    assert(keys.take(at + 1) =~= shorter.push(keys[at]));
    shorter.lemma_push_to_set_commute(keys[at]);
    if before.contains(keys[at]) {
        let j = choose|j: int| 0 <= j < shorter.len() && #[trigger] shorter[j] == keys[at];
        assert(keys[j] == keys[at]);
    }
    if pred(keys[at]) {
        assert(after.filter(pred) =~= before.filter(pred).insert(keys[at]));
    } else {
        assert(after.filter(pred) =~= before.filter(pred));
    }
}

} // verus!
