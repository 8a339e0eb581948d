//! The last-value store behind a topic table: one entry per topic, holding
//! the latest value, the time it arrived and how many updates the topic has
//! seen. Arrival times are plain `u64` milliseconds supplied by the caller.
use vstd::prelude::*;

use vstd::relations::sorted_by;

use crate::textutil::{lemma_lex_le_total, lemma_lex_le_trans, lex_le, str_eq, str_le};

verus! {

/// The key a table of entries can be ordered by.
#[derive(Clone, Copy, Debug, PartialEq, Eq, Structural)]
pub enum OrderSort {
    Topic,
    Value,
    Time,
    Count,
}

/// The mathematical state of an [`Entry`].
pub ghost struct EntryModel {
    pub topic: Seq<char>,
    pub value: Seq<char>,
    pub time: u64,
    pub count: int,
}

/// `c + 1`, saturating at the update counter's maximum.
pub open spec fn count_inc(c: int) -> int {
    if c + 1 <= i32::MAX as int {
        c + 1
    } else {
        c
    }
}

/// One topic's latest value, arrival time and update count.
pub struct Entry {
    pub topic: String,
    pub value: String,
    pub time: u64,
    pub count: i32,
}

impl View for Entry {
    type V = EntryModel;

    open spec fn view(&self) -> EntryModel {
        EntryModel {
            topic: self.topic@,
            value: self.value@,
            time: self.time,
            count: self.count as int,
        }
    }
}

impl Entry {
    /// A first sighting of a topic: update count one.
    pub fn new(topic: String, value: String, time: u64) -> (e: Entry)
        ensures
            e@ == (EntryModel { topic: topic@, value: value@, time, count: 1int }),
    {
        Entry { topic, value, time, count: 1 }
    }

    /// Takes over another sighting's value and time and counts the update;
    /// the counter saturates rather than wraps.
    pub fn update(&mut self, e: &Entry)
        ensures
            final(self)@ == (EntryModel {
                value: e@.value,
                time: e@.time,
                count: count_inc(old(self)@.count),
                ..old(self)@
            }),
    {
        self.value = e.value.clone();
        self.time = e.time;
        if self.count < i32::MAX {
            self.count = self.count + 1;
        }
    }
}

/// The index of the first entry for `topic`, or `-1`.
pub open spec fn find_entry(s: Seq<EntryModel>, topic: Seq<char>) -> int
    decreases s.len(),
{
    if s.len() == 0 {
        -1
    } else if s[0].topic == topic {
        0
    } else {
        let r = find_entry(s.drop_first(), topic);
        if r == -1 {
            -1
        } else {
            r + 1
        }
    }
}

/// `find_entry` names the first entry for the topic exactly when one
/// exists.
pub proof fn lemma_find_entry(s: Seq<EntryModel>, topic: Seq<char>)
    ensures
        find_entry(s, topic) == -1 <==> (forall|i: int| 0 <= i < s.len() ==> s[i].topic != topic),
        find_entry(s, topic) != -1 ==> {
            let r = find_entry(s, topic);
            &&& 0 <= r < s.len()
            &&& s[r].topic == topic
            &&& forall|j: int| 0 <= j < r ==> s[j].topic != topic
        },
    decreases s.len(),
{
    if s.len() > 0 && s[0].topic != topic {
        lemma_find_entry(s.drop_first(), topic);
        assert forall|i: int| 0 <= i < s.len() && #[trigger] s[i].topic == topic implies exists|k: int|
            0 <= k < s.drop_first().len() && s.drop_first()[k].topic == topic by {
            assert(s.drop_first()[i - 1].topic == topic);
        }
        let r = find_entry(s.drop_first(), topic);
        if r != -1 {
            assert(s.drop_first()[r] == s[r + 1]);
            assert forall|j: int| 0 <= j < r + 1 implies s[j].topic != topic by {
                if j > 0 {
                    assert(s.drop_first()[j - 1] == s[j]);
                }
            }
        }
    }
}

/// One entry per topic, in first-seen order.
pub struct EntryList {
    pub entries: Vec<Entry>,
}

impl View for EntryList {
    type V = Seq<EntryModel>;

    open spec fn view(&self) -> Seq<EntryModel> {
        Seq::new(self.entries@.len(), |i: int| self.entries@[i]@)
    }
}

impl EntryList {
    /// An empty store.
    pub fn new() -> (l: EntryList)
        ensures
            l@ == Seq::<EntryModel>::empty(),
    {
        let l = EntryList { entries: Vec::new() };
        proof {
            assert(l@ =~= Seq::<EntryModel>::empty());
        }
        l
    }

    /// How many topics have been seen.
    pub fn len(&self) -> (n: usize)
        ensures
            n == self@.len(),
    {
        self.entries.len()
    }

    /// Records a sighting of `topic` at time `now`: an already-known topic
    /// keeps its entry (value and time replaced, count grown), a new topic
    /// is appended.
    pub fn add(&mut self, topic: String, message: String, now: u64)
        ensures
            ({
                let r = find_entry(old(self)@, topic@);
                &&& (r == -1 ==> final(self)@ == old(self)@.push(
                    (EntryModel { topic: topic@, value: message@, time: now, count: 1int }),
                ))
                &&& (r != -1 ==> final(self)@ == old(self)@.update(
                    r,
                    (EntryModel {
                        value: message@,
                        time: now,
                        count: count_inc(old(self)@[r].count),
                        ..old(self)@[r]
                    }),
                ))
            }),
    {
        proof {
            lemma_find_entry(self@, topic@);
        }
        let n = self.entries.len();
        let mut idx: usize = 0;
        while idx < n
            invariant
                self@ == old(self)@,
                n == self.entries@.len(),
                n == self@.len(),
                idx <= n,
                forall|i: int| 0 <= i < self@.len() ==> self@[i] == self.entries@[i]@,
                forall|j: int| 0 <= j < idx ==> self@[j].topic != topic@,
            decreases n - idx,
        {
            if str_eq(self.entries[idx].topic.as_str(), topic.as_str()) {
                proof {
                    lemma_find_entry(self@, topic@);
                    let r = find_entry(self@, topic@);
                    assert(self@[idx as int].topic == topic@);
                    assert(r != -1);
                    if r < idx as int {
                        assert(self@[r].topic != topic@);
                    } else if r > idx as int {
                        assert(self@[idx as int].topic != topic@);
                    }
                    assert(r == idx as int);
                }
                let ghost pre = self@;
                let sighting = Entry::new(topic, message, now);
                self.entries[idx].update(&sighting);
                proof {
                    assert(final(self)@ =~= pre.update(
                        idx as int,
                        (EntryModel {
                            value: sighting@.value,
                            time: now,
                            count: count_inc(pre[idx as int].count),
                            ..pre[idx as int]
                        }),
                    ));
                }
                return ;
            }
            idx += 1;
        }
        let ghost pre = self@;
        self.entries.push(Entry::new(topic, message, now));
        proof {
            assert(final(self)@ =~= pre.push(
                (EntryModel { topic: topic@, value: message@, time: now, count: 1int }),
            ));
        }
    }

    /// The entry for `topic`, or nothing when the topic was never seen.
    pub fn get(&self, topic: &str) -> (r: Option<&Entry>)
        ensures
            match r {
                Some(e) => find_entry(self@, topic@) != -1 && e@ == self@[find_entry(
                    self@,
                    topic@,
                )],
                None => find_entry(self@, topic@) == -1,
            },
    {
        proof {
            lemma_find_entry(self@, topic@);
        }
        let n = self.entries.len();
        let mut idx: usize = 0;
        while idx < n
            invariant
                n == self.entries@.len(),
                n == self@.len(),
                idx <= n,
                forall|i: int| 0 <= i < self@.len() ==> self@[i] == self.entries@[i]@,
                forall|j: int| 0 <= j < idx ==> self@[j].topic != topic@,
            decreases n - idx,
        {
            if str_eq(self.entries[idx].topic.as_str(), topic) {
                proof {
                    lemma_find_entry(self@, topic@);
                    let r = find_entry(self@, topic@);
                    assert(self@[idx as int].topic == topic@);
                    assert(r != -1);
                    if r < idx as int {
                        assert(self@[r].topic != topic@);
                    } else if r > idx as int {
                        assert(self@[idx as int].topic != topic@);
                    }
                    assert(r == idx as int);
                }
                return Some(&self.entries[idx]);
            }
            idx += 1;
        }
        None
    }
}

/// Whether entry `a` sorts at or before entry `b` under the chosen key.
pub open spec fn key_le(a: EntryModel, b: EntryModel, o: OrderSort) -> bool {
    match o {
        OrderSort::Topic => lex_le(a.topic, b.topic),
        OrderSort::Value => lex_le(a.value, b.value),
        OrderSort::Time => a.time <= b.time,
        OrderSort::Count => a.count <= b.count,
    }
}

/// The order [`order_list`] sorts by, as a relation on entry models.
pub open spec fn entry_order(o: OrderSort) -> spec_fn(EntryModel, EntryModel) -> bool {
    |a: EntryModel, b: EntryModel| key_le(a, b, o)
}

/// Every ordering key yields a total order.
pub proof fn lemma_key_le_total(a: EntryModel, b: EntryModel, o: OrderSort)
    ensures
        key_le(a, b, o) || key_le(b, a, o),
{
    match o {
        OrderSort::Topic => lemma_lex_le_total(a.topic, b.topic),
        OrderSort::Value => lemma_lex_le_total(a.value, b.value),
        OrderSort::Time => {},
        OrderSort::Count => {},
    }
}

/// Every ordering key yields a transitive order.
pub proof fn lemma_key_le_trans(a: EntryModel, b: EntryModel, c: EntryModel, o: OrderSort)
    requires
        key_le(a, b, o),
        key_le(b, c, o),
    ensures
        key_le(a, c, o),
{
    match o {
        OrderSort::Topic => lemma_lex_le_trans(a.topic, b.topic, c.topic),
        OrderSort::Value => lemma_lex_le_trans(a.value, b.value, c.value),
        OrderSort::Time => {},
        OrderSort::Count => {},
    }
}

/// Whether entry `a` sorts at or before entry `b` under the chosen key.
fn entry_le(a: &Entry, b: &Entry, o: OrderSort) -> (r: bool)
    ensures
        r == key_le(a@, b@, o),
{
    match o {
        OrderSort::Topic => str_le(a.topic.as_str(), b.topic.as_str()),
        OrderSort::Value => str_le(a.value.as_str(), b.value.as_str()),
        OrderSort::Time => a.time <= b.time,
        OrderSort::Count => a.count <= b.count,
    }
}

/// Sorts the entries by the chosen key (insertion sort, keeping the same
/// entries: the result is a permutation of the input, sorted by the key).
pub fn order_list(entry_list: &mut EntryList, ordering: OrderSort)
    ensures
        final(entry_list)@.to_multiset() == old(entry_list)@.to_multiset(),
        final(entry_list)@.len() == old(entry_list)@.len(),
        sorted_by(final(entry_list)@, entry_order(ordering)),
{
    broadcast use vstd::seq_lib::group_to_multiset_ensures;

    let n = entry_list.entries.len();
    if n == 0 {
        return ;
    }
    let mut i: usize = 1;
    while i < n
        invariant
            1 <= i <= n,
            n == entry_list.entries@.len(),
            n == entry_list@.len(),
            forall|k: int|
                0 <= k < entry_list@.len() ==> entry_list@[k] == entry_list.entries@[k]@,
            entry_list@.to_multiset() == old(entry_list)@.to_multiset(),
            sorted_by(entry_list@.take(i as int), entry_order(ordering)),
        decreases n - i,
    {
        let ghost pre = entry_list@;
        let e = entry_list.entries.remove(i);
        let ghost mid = entry_list@;
        proof {
            assert(mid =~= pre.remove(i as int));
            assert(mid.take(i as int) =~= pre.take(i as int));
        }
        let mut j: usize = i;
        while j > 0 && !entry_le(&entry_list.entries[j - 1], &e, ordering)
            invariant
                j <= i < n,
                n - 1 == entry_list.entries@.len(),
                entry_list@ == mid,
                n - 1 == entry_list@.len(),
                forall|k: int|
                    0 <= k < entry_list@.len() ==> entry_list@[k] == entry_list.entries@[k]@,
                sorted_by(mid.take(i as int), entry_order(ordering)),
                forall|k: int| j <= k < i ==> #[trigger] key_le(e@, mid[k], ordering),
            decreases j,
        {
            proof {
                lemma_key_le_total(e@, mid[j as int - 1], ordering);
            }
            j -= 1;
        }
        let ghost at = j as int;
        entry_list.entries.insert(j, e);
        proof {
            assert(entry_list@ =~= mid.insert(at, e@));
            assert(entry_list@.to_multiset() == pre.to_multiset()) by {
                vstd::seq_lib::to_multiset_insert(mid, at, e@);
                vstd::seq_lib::to_multiset_remove(pre, i as int);
                assert(mid.insert(at, e@).to_multiset() == mid.to_multiset().insert(e@));
                assert(pre.remove(i as int).to_multiset() == pre.to_multiset().remove(pre[i as int]));
                assert(pre.to_multiset().remove(e@).insert(e@) =~= pre.to_multiset()) by {
                    broadcast use vstd::multiset::group_multiset_axioms;

                    pre.to_multiset_ensures();
                    assert(e@ == pre[i as int]);
                    assert(pre.contains(e@));
                    assert(pre.to_multiset().count(e@) > 0);
                }
            }
            assert forall|p: int, q: int|
                0 <= p < q < i implies #[trigger] key_le(mid[p], mid[q], ordering) by {
                assert(entry_order(ordering)(mid.take(i as int)[p], mid.take(i as int)[q]));
            }
            let s = entry_list@.take(i as int + 1);
            assert forall|p: int, q: int|
                0 <= p < q < s.len() implies #[trigger] entry_order(ordering)(s[p], s[q]) by {
                let ord = ordering;
                if q < at {
                    assert(s[p] == mid[p] && s[q] == mid[q]);
                    assert(key_le(mid[p], mid[q], ord));
                } else if q == at {
                    assert(s[p] == mid[p]);
                    assert(at >= 1);
                    assert(key_le(mid[at - 1], e@, ord));
                    if p < at - 1 {
                        assert(key_le(mid[p], mid[at - 1], ord));
                        lemma_key_le_trans(mid[p], mid[at - 1], e@, ord);
                    }
                    assert(key_le(s[p], s[q], ord));
                } else {
                    assert(s[q] == mid[q - 1]);
                    assert(key_le(e@, mid[q - 1], ord));
                    if p > at {
                        assert(s[p] == mid[p - 1]);
                        assert(key_le(mid[p - 1], mid[q - 1], ord));
                    } else if p == at {
                        assert(s[p] == e@);
                    } else {
                        assert(s[p] == mid[p]);
                        if at >= 1 {
                            assert(key_le(mid[p], e@, ord) || key_le(e@, mid[p], ord)) by {
                                lemma_key_le_total(mid[p], e@, ord);
                            }
                            assert(key_le(mid[at - 1], e@, ord));
                            if p < at - 1 {
                                assert(key_le(mid[p], mid[at - 1], ord));
                                lemma_key_le_trans(mid[p], mid[at - 1], e@, ord);
                            }
                            lemma_key_le_trans(mid[p], e@, mid[q - 1], ord);
                        }
                    }
                }
            }
            assert(sorted_by(entry_list@.take(i as int + 1), entry_order(ordering)));
        }
        i += 1;
    }
    proof {
        assert(entry_list@.take(n as int) =~= entry_list@);
    }
}

} // verus!
