//! Which subscription has which receiver.
use serde_json::Value;
use vstd::prelude::*;

use crate::api::SubscriptionId;
use crate::json::{json_kind, member, JsonKind};
use crate::rpc::{Notification, NotificationView, Params, ParamsView};

verus! {

/// What a notification tells, and to which subscription: its parameters name a `subscription`,
/// by a text, and a `result`.
pub open spec fn notice_of(notification: NotificationView) -> Option<(Seq<char>, Value)> {
    match notification.params {
        ParamsView::Object(members) => if members.contains_key("subscription"@)
            && members.contains_key("result"@) {
            match json_kind(members["subscription"@]) {
                JsonKind::Text(id) => Some((id, members["result"@])),
                _ => None,
            }
        } else {
            None
        },
        _ => None,
    }
}

/// What a notification tells, and to which subscription.
pub fn notice(notification: &Notification) -> (r: Option<(SubscriptionId, Value)>)
    ensures
        notice_of(notification@) == match r {
            Some((id, value)) => Some((id@, value)),
            None => None,
        },
{
    match &notification.params {
        Params::Object(members) => match (
            member(members, "subscription"),
            member(members, "result"),
        ) {
            (Some(id), Some(result)) => match id.as_str() {
                Some(text) => Some((SubscriptionId::new(text), result.clone())),
                None => None,
            },
            _ => None,
        },
        _ => None,
    }
}

/// Receivers by the id of their subscription. No id occurs twice.
#[derive(Debug)]
pub struct Subscriptions<S> {
    entries: Vec<(SubscriptionId, S)>,
}

impl<S> View for Subscriptions<S> {
    type V = Map<Seq<char>, S>;

    closed spec fn view(&self) -> Map<Seq<char>, S> {
        Map::new(
            |id: Seq<char>| exists|i: int| self.has_at(i, id),
            |id: Seq<char>| self.entries@[choose|i: int| self.has_at(i, id)].1,
        )
    }
}

impl<S> Subscriptions<S> {
    spec fn has_at(&self, i: int, id: Seq<char>) -> bool {
        0 <= i < self.entries@.len() && self.entries@[i].0@ == id
    }

    /// No id occurs twice.
    pub closed spec fn well_formed(&self) -> bool {
        forall|i: int, j: int|
            0 <= i < self.entries@.len() && 0 <= j < self.entries@.len() && i != j
                ==> (#[trigger] self.entries@[i]).0@ != (#[trigger] self.entries@[j]).0@
    }

    proof fn lemma_entry(&self, i: int)
        requires
            self.well_formed(),
            0 <= i < self.entries@.len(),
        ensures
            self@.contains_key(self.entries@[i].0@),
            self@[self.entries@[i].0@] == self.entries@[i].1,
    {
        let id = self.entries@[i].0@;
        assert(self.has_at(i, id));
        let j = choose|j: int| self.has_at(j, id);
        assert(self.has_at(j, id));
        assert(j == i);
    }

    /// No subscriptions.
    pub fn new() -> (r: Subscriptions<S>)
        ensures
            r.well_formed(),
            r@ == Map::<Seq<char>, S>::empty(),
    {
        let r = Subscriptions { entries: Vec::new() };
        assert(r@ =~= Map::<Seq<char>, S>::empty());
        r
    }

    fn position(&self, id: &SubscriptionId) -> (r: Option<usize>)
        ensures
            match r {
                Some(i) => i < self.entries@.len() && self.entries@[i as int].0@ == id@,
                None => !self@.contains_key(id@),
            },
    {
        let mut i: usize = 0;
        while i < self.entries.len()
            invariant
                i <= self.entries@.len(),
                forall|j: int| 0 <= j < i ==> (#[trigger] self.entries@[j]).0@ != id@,
            decreases self.entries@.len() - i,
        {
            if self.entries[i].0.same(id) {
                return Some(i);
            }
            i = i + 1;
        }
        None
    }

    /// The receiver of a subscription.
    pub fn get(&self, id: &SubscriptionId) -> (r: Option<&S>)
        requires
            self.well_formed(),
        ensures
            match r {
                Some(sink) => self@.contains_key(id@) && *sink == self@[id@],
                None => !self@.contains_key(id@),
            },
    {
        match self.position(id) {
            Some(i) => {
                proof {
                    self.lemma_entry(i as int);
                }
                Some(&self.entries[i].1)
            },
            None => None,
        }
    }

    /// Forgets a subscription, and gives back its receiver.
    pub fn remove(&mut self, id: &SubscriptionId) -> (r: Option<S>)
        requires
            old(self).well_formed(),
        ensures
            final(self).well_formed(),
            final(self)@ == old(self)@.remove(id@),
            match r {
                Some(sink) => old(self)@.contains_key(id@) && sink == old(self)@[id@],
                None => !old(self)@.contains_key(id@),
            },
    {
        match self.position(id) {
            Some(i) => {
                let ghost before = *self;
                let (_id, sink) = self.entries.remove(i);
                proof {
                    before.lemma_entry(i as int);
                    assert(self.well_formed());
                    before.lemma_removed(self, i as int);
                }
                Some(sink)
            },
            None => {
                assert(self@ =~= self@.remove(id@));
                None
            },
        }
    }

    proof fn lemma_removed(&self, after: &Subscriptions<S>, i: int)
        requires
            self.well_formed(),
            after.well_formed(),
            0 <= i < self.entries@.len(),
            after.entries@ == self.entries@.remove(i),
        ensures
            after@ == self@.remove(self.entries@[i].0@),
    {
        let gone = self.entries@[i].0@;
        assert forall|id: Seq<char>| after@.contains_key(id) <==> self@.remove(
            gone,
        ).contains_key(id) by {
            if after@.contains_key(id) {
                let k = choose|k: int| after.has_at(k, id);
                let m = if k < i {
                    k
                } else {
                    k + 1
                };
                assert(after.entries@[k] == self.entries@[m]);
                self.lemma_entry(m);
            }
            if self@.contains_key(id) && id != gone {
                let k = choose|k: int| self.has_at(k, id);
                let m = if k < i {
                    k
                } else {
                    k - 1
                };
                assert(after.entries@[m] == self.entries@[k]);
                after.lemma_entry(m);
            }
        }
        assert forall|id: Seq<char>| after@.contains_key(id) implies after@[id] == self@.remove(
            gone,
        )[id] by {
            let k = choose|k: int| after.has_at(k, id);
            let m = if k < i {
                k
            } else {
                k + 1
            };
            assert(after.entries@[k] == self.entries@[m]);
            self.lemma_entry(m);
            after.lemma_entry(k);
        }
        assert(after@ =~= self@.remove(gone));
    }

    /// Registers the receiver of a subscription. Where the subscription had one, that is given
    /// back.
    pub fn insert(&mut self, id: SubscriptionId, sink: S) -> (r: Option<S>)
        requires
            old(self).well_formed(),
        ensures
            final(self).well_formed(),
            final(self)@ == old(self)@.insert(id@, sink),
            match r {
                Some(sink) => old(self)@.contains_key(id@) && sink == old(self)@[id@],
                None => !old(self)@.contains_key(id@),
            },
    {
        let ghost first = self@;
        let r = self.remove(&id);
        let ghost before = *self;
        self.entries.push((id, sink));
        proof {
            assert forall|i: int| 0 <= i < before.entries@.len() implies (
            #[trigger] before.entries@[i]).0@ != id@ by {
                before.lemma_entry(i);
            }
            assert(self.well_formed()) by {
                assert forall|i: int, j: int|
                    0 <= i < self.entries@.len() && 0 <= j < self.entries@.len() && i
                        != j implies (#[trigger] self.entries@[i]).0@ != (
                #[trigger] self.entries@[j]).0@ by {
                    let n = before.entries@.len();
                    if i < n {
                        assert(self.entries@[i] == before.entries@[i]);
                    }
                    if j < n {
                        assert(self.entries@[j] == before.entries@[j]);
                    }
                }
            }
            assert(self.entries@.drop_last() =~= before.entries@);
            before.lemma_pushed(self);
            assert(first.remove(id@).insert(id@, sink) =~= first.insert(id@, sink));
        }
        r
    }

    proof fn lemma_pushed(&self, after: &Subscriptions<S>)
        requires
            self.well_formed(),
            after.well_formed(),
            after.entries@.len() == self.entries@.len() + 1,
            after.entries@.drop_last() == self.entries@,
        ensures
            after@ == self@.insert(after.entries@.last().0@, after.entries@.last().1),
    {
        let n = self.entries@.len() as int;
        let (id0, sink) = after.entries@.last();
        assert(after.entries@[n] == (id0, sink));
        assert(forall|i: int| 0 <= i < n ==> after.entries@.drop_last()[i] == after.entries@[i]);
        assert(forall|i: int| 0 <= i < n ==> #[trigger] after.entries@[i] == self.entries@[i]);
        after.lemma_entry(n);
        assert forall|id: Seq<char>| after@.contains_key(id) <==> self@.insert(
            id0@,
            sink,
        ).contains_key(id) by {
            if after@.contains_key(id) {
                let k = choose|k: int| after.has_at(k, id);
                if k < n {
                    assert(after.entries@[k] == self.entries@[k]);
                    self.lemma_entry(k);
                }
            }
            if self@.contains_key(id) {
                let k = choose|k: int| self.has_at(k, id);
                assert(after.entries@[k] == self.entries@[k]);
                after.lemma_entry(k);
            }
        }
        assert forall|id: Seq<char>| after@.contains_key(id) implies after@[id] == self@.insert(
            id0@,
            sink,
        )[id] by {
            let k = choose|k: int| after.has_at(k, id);
            after.lemma_entry(k);
            if k < n {
                assert(after.entries@[k] == self.entries@[k]);
                self.lemma_entry(k);
                assert(after.entries@[k].0@ != after.entries@[n].0@);
            }
        }
        assert(after@ =~= self@.insert(id0@, sink));
    }
}

} // verus!
